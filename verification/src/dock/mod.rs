pub mod icon_button;
pub mod icon_cache;
pub mod indicator;
pub mod launchers;

use crate::ipc::APP_ID;
use icon_button::{
    action_window, button_after, Action, ActionView, ButtonView, IconButtonModel, InputView,
};
use icon_cache::{icon_for, resolves, IconCache};
use launchers::{sorted_by_name, Config, LaunchableView};
use vstd::prelude::*;

verus! {

/// What the dock reads of a niri window.
#[derive(Debug)]
pub struct Window {
    pub id: u64,
    pub title: Option<String>,
    pub app_id: Option<String>,
    pub is_focused: bool,
}

/// The spec value of a [`Window`].
pub struct WindowView {
    pub id: u64,
    pub title: Option<Seq<char>>,
    pub app_id: Option<Seq<char>>,
    pub is_focused: bool,
}

pub open spec fn opt_view(o: Option<String>) -> Option<Seq<char>> {
    match o {
        Some(s) => Some(s@),
        None => None,
    }
}

impl View for Window {
    type V = WindowView;

    open spec fn view(&self) -> WindowView {
        WindowView {
            id: self.id,
            title: opt_view(self.title),
            app_id: opt_view(self.app_id),
            is_focused: self.is_focused,
        }
    }
}

/// The niri events the dock reacts to; every other event is `Other`.
#[allow(inconsistent_fields)]
#[derive(Debug)]
pub enum Event {
    WindowsChanged { windows: Vec<Window> },
    WindowOpenedOrChanged { window: Window },
    WindowClosed { id: u64 },
    WindowFocusChanged { id: Option<u64> },
    Other,
}

/// The spec value of an [`Event`].
#[allow(inconsistent_fields)]
pub enum EventView {
    WindowsChanged { windows: Seq<WindowView> },
    WindowOpenedOrChanged { window: WindowView },
    WindowClosed { id: u64 },
    WindowFocusChanged { id: Option<u64> },
    Other,
}

impl View for Event {
    type V = EventView;

    open spec fn view(&self) -> EventView {
        match self {
            Event::WindowsChanged { windows } => EventView::WindowsChanged {
                windows: windows@.map_values(|w: Window| w@),
            },
            Event::WindowOpenedOrChanged { window } => EventView::WindowOpenedOrChanged { window: window@ },
            Event::WindowClosed { id } => EventView::WindowClosed { id: *id },
            Event::WindowFocusChanged { id } => EventView::WindowFocusChanged { id: *id },
            Event::Other => EventView::Other,
        }
    }
}

/// Messages the dock accepts.
#[derive(Debug)]
pub enum Input {
    Enter,
    Leave,
    Focus(u64),
    Launch(String),
    NiriEvent(Event),
}

/// What the dock asks of the application.
#[derive(Debug)]
pub enum Output {
    Focus(u64),
    Launch(String),
}

/// One change to the row of window buttons, as the widget factory applies it.
pub enum AppOp {
    Clear,
    PushBack(IconButtonModel),
    Send(usize, icon_button::Input),
    Remove(usize),
}

/// The spec value of an [`AppOp`].
pub enum AppOpView {
    Clear,
    PushBack(ButtonView),
    Send(int, InputView),
    Remove(int),
}

impl View for AppOp {
    type V = AppOpView;

    open spec fn view(&self) -> AppOpView {
        match self {
            AppOp::Clear => AppOpView::Clear,
            AppOp::PushBack(b) => AppOpView::PushBack(b@),
            AppOp::Send(i, m) => AppOpView::Send(*i as int, m@),
            AppOp::Remove(i) => AppOpView::Remove(*i as int),
        }
    }
}

/// The row of buttons after one change.
pub open spec fn apply_op(apps: Seq<ButtonView>, op: AppOpView) -> Seq<ButtonView> {
    match op {
        AppOpView::Clear => Seq::empty(),
        AppOpView::PushBack(b) => apps.push(b),
        AppOpView::Send(i, m) => if 0 <= i < apps.len() {
            apps.update(i, button_after(apps[i], m))
        } else {
            apps
        },
        AppOpView::Remove(i) => if 0 <= i < apps.len() {
            apps.remove(i)
        } else {
            apps
        },
    }
}

/// The row of buttons after a sequence of changes, applied in order.
pub open spec fn apply_ops(apps: Seq<ButtonView>, ops: Seq<AppOpView>) -> Seq<ButtonView>
    decreases ops.len(),
{
    if ops.len() == 0 {
        apps
    } else {
        apply_op(apply_ops(apps, ops.drop_last()), ops.last())
    }
}

pub open spec fn ops_view(ops: Seq<AppOp>) -> Seq<AppOpView> {
    ops.map_values(|o: AppOp| o@)
}

pub open spec fn buttons_view(bs: Seq<IconButtonModel>) -> Seq<ButtonView> {
    bs.map_values(|b: IconButtonModel| b@)
}

proof fn lemma_apply_ops_push(apps: Seq<ButtonView>, ops: Seq<AppOpView>, op: AppOpView)
    ensures
        apply_ops(apps, ops.push(op)) == apply_op(apply_ops(apps, ops), op),
{
    assert(ops.push(op).drop_last() =~= ops);
}

/// Whether `w` is one of the dock's own windows.
pub open spec fn own_window(w: WindowView) -> bool {
    w.app_id == Some(APP_ID@)
}

/// The application id of `w`, empty when it has none.
pub open spec fn app_id_of(w: WindowView) -> Seq<char> {
    match w.app_id {
        Some(a) => a,
        None => Seq::empty(),
    }
}

/// The tooltip of `w`: its title, else its application id, else empty.
pub open spec fn title_of(w: WindowView) -> Seq<char> {
    match w.title {
        Some(t) => t,
        None => app_id_of(w),
    }
}

/// The button shown for `w` with the icon `icon`.
pub open spec fn button_for(w: WindowView, icon: Seq<char>) -> ButtonView {
    ButtonView { icon_name: icon, action: ActionView::Focus(w.id), focused: w.is_focused, title: title_of(w) }
}

/// `ws` without the dock's own windows, in order.
pub open spec fn foreign_windows(ws: Seq<WindowView>) -> Seq<WindowView>
    decreases ws.len(),
{
    if ws.len() == 0 {
        Seq::empty()
    } else {
        let rest = foreign_windows(ws.drop_last());
        if own_window(ws.last()) {
            rest
        } else {
            rest.push(ws.last())
        }
    }
}

/// The id of the first focused window of `ws`, if one is focused.
pub open spec fn first_focused(ws: Seq<WindowView>) -> Option<u64> {
    if exists|k: int| 0 <= k < ws.len() && ws[k].is_focused {
        let k = choose|k: int|
            0 <= k < ws.len() && ws[k].is_focused && forall|j: int| 0 <= j < k ==> !(#[trigger] ws[j]).is_focused;
        Some(ws[k].id)
    } else {
        None
    }
}

/// Whether the button at `i` of `apps` focuses window `id`.
pub open spec fn shows_window(apps: Seq<ButtonView>, i: int, id: u64) -> bool {
    action_window(apps[i].action) == Some(id)
}

/// The position of the first button of `apps` that focuses window `id`.
pub open spec fn app_index(apps: Seq<ButtonView>, id: u64) -> Option<int> {
    if exists|k: int| 0 <= k < apps.len() && shows_window(apps, k, id) {
        Some(
            choose|k: int|
                0 <= k < apps.len() && shows_window(apps, k, id) && forall|j: int|
                    0 <= j < k ==> !#[trigger] shows_window(apps, j, id),
        )
    } else {
        None
    }
}

proof fn lemma_app_index_found(apps: Seq<ButtonView>, id: u64, k: int)
    requires
        0 <= k < apps.len(),
        shows_window(apps, k, id),
        forall|j: int| 0 <= j < k ==> !#[trigger] shows_window(apps, j, id),
    ensures
        app_index(apps, id) == Some(k),
{
    let c = choose|c: int|
        0 <= c < apps.len() && shows_window(apps, c, id) && forall|j: int|
            0 <= j < c ==> !#[trigger] shows_window(apps, j, id);
    assert(0 <= c < apps.len() && shows_window(apps, c, id));
    if c < k {
    } else if c > k {
        assert(!shows_window(apps, k, id));
    }
}

proof fn lemma_first_shown(apps: Seq<ButtonView>, id: u64, k0: int)
    requires
        0 <= k0 < apps.len(),
        shows_window(apps, k0, id),
    ensures
        exists|k: int|
            0 <= k < apps.len() && shows_window(apps, k, id) && forall|j: int|
                0 <= j < k ==> !#[trigger] shows_window(apps, j, id),
    decreases k0,
{
    if exists|j: int| 0 <= j < k0 && shows_window(apps, j, id) {
        let j = choose|j: int| 0 <= j < k0 && shows_window(apps, j, id);
        lemma_first_shown(apps, id, j);
    } else {
        assert(forall|j: int| 0 <= j < k0 ==> !#[trigger] shows_window(apps, j, id));
    }
}

/// A position that [`app_index`] gives is a button of `apps` showing `id`.
pub proof fn lemma_app_index_in_range(apps: Seq<ButtonView>, id: u64)
    ensures
        app_index(apps, id) matches Some(k) ==> 0 <= k < apps.len() && shows_window(apps, k, id),
{
    if exists|k: int| 0 <= k < apps.len() && shows_window(apps, k, id) {
        let k0 = choose|k: int| 0 <= k < apps.len() && shows_window(apps, k, id);
        lemma_first_shown(apps, id, k0);
    }
}

proof fn lemma_first_focused_found(ws: Seq<WindowView>, k: int)
    requires
        0 <= k < ws.len(),
        ws[k].is_focused,
        forall|j: int| 0 <= j < k ==> !(#[trigger] ws[j]).is_focused,
    ensures
        first_focused(ws) == Some(ws[k].id),
{
    let c = choose|c: int|
        0 <= c < ws.len() && ws[c].is_focused && forall|j: int| 0 <= j < c ==> !(#[trigger] ws[j]).is_focused;
    assert(0 <= c < ws.len() && ws[c].is_focused);
    if c < k {
    } else if c > k {
        assert(!ws[k].is_focused);
    }
}

/// Whether `w` is one of the dock's own windows.
pub fn is_own_window(w: &Window) -> (b: bool)
    ensures
        b == own_window(w@),
{
    match &w.app_id {
        Some(a) => *a == String::from_str(APP_ID),
        None => false,
    }
}

/// The application id of `w`, empty when it has none.
pub fn window_app_id(w: &Window) -> (s: String)
    ensures
        s@ == app_id_of(w@),
{
    match &w.app_id {
        Some(a) => a.clone(),
        None => String::new(),
    }
}

/// The tooltip of `w`: its title, else its application id, else empty.
pub fn window_title(w: &Window) -> (s: String)
    ensures
        s@ == title_of(w@),
{
    match &w.title {
        Some(t) => t.clone(),
        None => window_app_id(w),
    }
}

/// The position of the first button of `apps` that focuses window `id`.
pub fn window_index(apps: &Vec<IconButtonModel>, id: u64) -> (r: Option<usize>)
    ensures
        match r {
            Some(i) => i < apps@.len() && app_index(buttons_view(apps@), id) == Some(i as int),
            None => app_index(buttons_view(apps@), id) is None,
        },
{
    let ghost bv = buttons_view(apps@);
    let mut i: usize = 0;
    while i < apps.len()
        invariant
            i <= apps@.len(),
            bv == buttons_view(apps@),
            bv.len() == apps@.len(),
            forall|j: int| 0 <= j < i ==> !#[trigger] shows_window(bv, j, id),
        decreases apps@.len() - i,
    {
        let wid = apps[i].window_id();
        assert(bv[i as int] == apps@[i as int]@);
        match wid {
            Some(x) => {
                if x == id {
                    proof {
                        lemma_app_index_found(bv, id, i as int);
                    }
                    return Some(i);
                }
            },
            None => {},
        }
        i = i + 1;
    }
    None
}

/// The spec value of a [`DockModel`].
pub struct DockView {
    pub visible: bool,
    pub apps: Seq<ButtonView>,
    pub launchables: Seq<ButtonView>,
    pub focused_window: Option<u64>,
    pub apps_count: nat,
    pub icons: Map<Seq<char>, Seq<char>>,
}

/// The dock: whether it is shown, a row of launcher buttons, a row of
/// buttons for open windows, which window has focus, and the icons
/// resolved so far.
pub struct DockModel {
    visible: bool,
    apps: Vec<IconButtonModel>,
    launchables: Vec<IconButtonModel>,
    focused_window: Option<u64>,
    apps_count: usize,
    icons: IconCache,
}

impl View for DockModel {
    type V = DockView;

    closed spec fn view(&self) -> DockView {
        DockView {
            visible: self.visible,
            apps: buttons_view(self.apps@),
            launchables: buttons_view(self.launchables@),
            focused_window: self.focused_window,
            apps_count: self.apps_count as nat,
            icons: self.icons@,
        }
    }
}

/// The buttons shown for the windows `vis`, each with the icon `icons` gives
/// its application.
pub open spec fn buttons_for(vis: Seq<WindowView>, icons: Map<Seq<char>, Seq<char>>) -> Seq<ButtonView> {
    Seq::new(vis.len(), |j: int| button_for(vis[j], icon_for(icons, app_id_of(vis[j]))))
}

/// `icons` holds exactly the non-empty application ids of `vis`, each with
/// the icon `lookup` resolves it to.
pub open spec fn fresh_icons<F: Fn(&str) -> Option<String>>(
    icons: Map<Seq<char>, Seq<char>>,
    vis: Seq<WindowView>,
    lookup: F,
) -> bool {
    &&& forall|k: Seq<char>|
        #[trigger] icons.contains_key(k) <==> (k.len() > 0 && exists|j: int|
            0 <= j < vis.len() && #[trigger] app_id_of(vis[j]) == k)
    &&& forall|k: Seq<char>| #[trigger] icons.contains_key(k) ==> resolves(lookup, k, icons[k])
}

/// `new_icons` is `old_icons` after asking for the icon of `app_id`: an id
/// already known or empty changes nothing, any other is added with the icon
/// `lookup` resolves it to.
pub open spec fn icon_step<F: Fn(&str) -> Option<String>>(
    old_icons: Map<Seq<char>, Seq<char>>,
    new_icons: Map<Seq<char>, Seq<char>>,
    app_id: Seq<char>,
    lookup: F,
) -> bool {
    if old_icons.contains_key(app_id) || app_id.len() == 0 {
        new_icons == old_icons
    } else {
        &&& new_icons == old_icons.insert(app_id, new_icons[app_id])
        &&& resolves(lookup, app_id, new_icons[app_id])
    }
}

/// `new` is `old` after the full window list `ws` arrived, and `ops` is how
/// the row of window buttons was rebuilt.
pub open spec fn replaced_all<F: Fn(&str) -> Option<String>>(
    old: DockView,
    new: DockView,
    ws: Seq<WindowView>,
    lookup: F,
    ops: Seq<AppOpView>,
) -> bool {
    let vis = foreign_windows(ws);
    &&& new.apps == buttons_for(vis, new.icons)
    &&& fresh_icons(new.icons, vis, lookup)
    &&& new.focused_window == first_focused(vis)
    &&& new.apps_count == vis.len()
    &&& new.visible == old.visible
    &&& new.launchables == old.launchables
    &&& ops == seq![AppOpView::Clear] + new.apps.map_values(|b: ButtonView| AppOpView::PushBack(b))
}

/// `new` is `old` after window `w` opened or changed: its button, found by
/// window id, gets the window's icon and title, or a new button is appended.
pub open spec fn upserted<F: Fn(&str) -> Option<String>>(
    old: DockView,
    new: DockView,
    w: WindowView,
    lookup: F,
    ops: Seq<AppOpView>,
) -> bool {
    let icon = icon_for(new.icons, app_id_of(w));
    &&& icon_step(old.icons, new.icons, app_id_of(w), lookup)
    &&& match app_index(old.apps, w.id) {
        Some(i) => {
            &&& new.apps == old.apps.update(i, ButtonView { icon_name: icon, title: title_of(w), ..old.apps[i] })
            &&& ops == seq![AppOpView::Send(i, InputView::Update { icon_name: icon, title: title_of(w) })]
        },
        None => {
            &&& new.apps == old.apps.push(button_for(w, icon))
            &&& ops == seq![AppOpView::PushBack(button_for(w, icon))]
        },
    }
    &&& new.apps_count == new.apps.len()
    &&& new.focused_window == old.focused_window
    &&& new.visible == old.visible
    &&& new.launchables == old.launchables
}

/// `new` is `old` after window `id` closed: it loses focus and its button.
pub open spec fn closed_window(old: DockView, new: DockView, id: u64, ops: Seq<AppOpView>) -> bool {
    &&& match app_index(old.apps, id) {
        Some(i) => new.apps == old.apps.remove(i) && ops == seq![AppOpView::Remove(i)],
        None => new.apps == old.apps && ops == Seq::<AppOpView>::empty(),
    }
    &&& new.focused_window == (if old.focused_window == Some(id) { None } else { old.focused_window })
    &&& new.apps_count == new.apps.len()
    &&& new.icons == old.icons
    &&& new.visible == old.visible
    &&& new.launchables == old.launchables
}

/// Whether the button `b` is redrawn when focus moves from `old_f` to `new_f`.
pub open spec fn focus_touches(b: ButtonView, old_f: Option<u64>, new_f: Option<u64>) -> bool {
    action_window(b.action) == old_f || action_window(b.action) == new_f
}

/// The button `b` after focus moved from `old_f` to `new_f`.
pub open spec fn refocused(b: ButtonView, old_f: Option<u64>, new_f: Option<u64>) -> ButtonView {
    if focus_touches(b, old_f, new_f) {
        ButtonView { focused: action_window(b.action) == new_f, ..b }
    } else {
        b
    }
}

/// The messages sent to the first `n` buttons of `apps` when focus moves
/// from `old_f` to `new_f`.
pub open spec fn focus_ops(apps: Seq<ButtonView>, old_f: Option<u64>, new_f: Option<u64>, n: int) -> Seq<AppOpView>
    decreases n,
{
    if n <= 0 {
        Seq::empty()
    } else if focus_touches(apps[n - 1], old_f, new_f) {
        focus_ops(apps, old_f, new_f, n - 1).push(
            AppOpView::Send(n - 1, InputView::SetFocused(action_window(apps[n - 1].action) == new_f)),
        )
    } else {
        focus_ops(apps, old_f, new_f, n - 1)
    }
}

/// `new` is `old` after focus moved to `new_f`.
pub open spec fn refocused_all(old: DockView, new: DockView, new_f: Option<u64>, ops: Seq<AppOpView>) -> bool {
    &&& new.apps == Seq::new(old.apps.len(), |i: int| refocused(old.apps[i], old.focused_window, new_f))
    &&& ops == focus_ops(old.apps, old.focused_window, new_f, old.apps.len() as int)
    &&& new.focused_window == new_f
    &&& new.apps_count == old.apps_count
    &&& new.icons == old.icons
    &&& new.visible == old.visible
    &&& new.launchables == old.launchables
}

impl DockModel {
    fn replace_all_apps<F: Fn(&str) -> Option<String>>(&mut self, windows: Vec<Window>, lookup: &F) -> (ops: Vec<AppOp>)
        requires
            forall|s: &str| #[trigger] lookup.requires((s,)),
        ensures
            replaced_all(old(self)@, final(self)@, windows@.map_values(|w: Window| w@), *lookup, ops_view(ops@)),
            apply_ops(old(self)@.apps, ops_view(ops@)) == final(self)@.apps,
    {
        let ghost old_apps = old(self)@.apps;
        let ghost wsv = windows@.map_values(|w: Window| w@);
        self.icons.clear();
        self.apps = Vec::new();
        let mut ops: Vec<AppOp> = Vec::new();
        ops.push(AppOp::Clear);
        let mut focused: Option<u64> = None;
        let ghost mut vis: Seq<WindowView> = Seq::empty();
        let ghost mut fk: int = 0;
        assert(wsv.take(0) =~= Seq::<WindowView>::empty());
        assert(ops_view(ops@) =~= seq![AppOpView::Clear]);
        assert(buttons_view(self.apps@) =~= Seq::<ButtonView>::empty());
        let mut i: usize = 0;
        while i < windows.len()
            invariant
                i <= windows@.len(),
                wsv == windows@.map_values(|w: Window| w@),
                vis == foreign_windows(wsv.take(i as int)),
                buttons_view(self.apps@) == buttons_for(vis, self.icons@),
                fresh_icons(self.icons@, vis, *lookup),
                match focused {
                    Some(x) => 0 <= fk < vis.len() && vis[fk].is_focused && x == vis[fk].id
                        && forall|j: int| 0 <= j < fk ==> !(#[trigger] vis[j]).is_focused,
                    None => forall|j: int| 0 <= j < vis.len() ==> !(#[trigger] vis[j]).is_focused,
                },
                ops_view(ops@) == seq![AppOpView::Clear] + buttons_view(self.apps@).map_values(
                    |b: ButtonView| AppOpView::PushBack(b),
                ),
                apply_ops(old_apps, ops_view(ops@)) == buttons_view(self.apps@),
                self.visible == old(self).visible,
                self.launchables == old(self).launchables,
                forall|s: &str| #[trigger] lookup.requires((s,)),
            decreases windows@.len() - i,
        {
            let w = &windows[i];
            let ghost wv = w@;
            assert(wsv[i as int] == wv);
            assert(wsv.take(i + 1).drop_last() =~= wsv.take(i as int));
            if !is_own_window(w) {
                let app_id = window_app_id(w);
                let ghost old_icons = self.icons@;
                let ghost old_bv = buttons_view(self.apps@);
                let icon = self.icons.icon_name_for_app_id(app_id.as_str(), lookup);
                let b = IconButtonModel::init_model(icon.clone(), Action::Focus(w.id), w.is_focused, window_title(w));
                let b2 = IconButtonModel::init_model(icon, Action::Focus(w.id), w.is_focused, window_title(w));
                let ghost old_ops = ops_view(ops@);
                ops.push(AppOp::PushBack(b2));
                self.apps.push(b);
                if focused.is_none() && w.is_focused {
                    focused = Some(w.id);
                    proof {
                        fk = vis.len() as int;
                    }
                }
                proof {
                    let nvis = vis.push(wv);
                    assert(foreign_windows(wsv.take(i + 1)) == nvis);
                    // earlier buttons keep their icons: the cache only gained `app_id`
                    assert forall|j: int| 0 <= j < vis.len() implies icon_for(self.icons@, app_id_of(vis[j]))
                        == icon_for(old_icons, app_id_of(vis[j])) by {
                        if app_id_of(vis[j]).len() > 0 {
                            assert(old_icons.contains_key(app_id_of(vis[j])));
                        }
                    }
                    assert(buttons_view(self.apps@) =~= buttons_for(nvis, self.icons@)) by {
                        assert(buttons_view(self.apps@) =~= old_bv.push(self.apps@.last()@));
                    }
                    assert forall|k: Seq<char>|
                        #[trigger] self.icons@.contains_key(k) <==> (k.len() > 0 && exists|j: int|
                            0 <= j < nvis.len() && #[trigger] app_id_of(nvis[j]) == k) by {
                        if k.len() > 0 && exists|j: int| 0 <= j < nvis.len() && #[trigger] app_id_of(nvis[j]) == k {
                            let j = choose|j: int| 0 <= j < nvis.len() && #[trigger] app_id_of(nvis[j]) == k;
                            if j < vis.len() {
                                assert(nvis[j] == vis[j]);
                                assert(old_icons.contains_key(k));
                            }
                        }
                        if old_icons.contains_key(k) {
                            let j = choose|j: int| 0 <= j < vis.len() && #[trigger] app_id_of(vis[j]) == k;
                            assert(nvis[j] == vis[j]);
                        }
                        if k == app_id@ && k.len() > 0 {
                            assert(app_id_of(nvis[vis.len() as int]) == k);
                        }
                    }
                    assert forall|k: Seq<char>| #[trigger] self.icons@.contains_key(k) implies resolves(
                        *lookup,
                        k,
                        self.icons@[k],
                    ) by {
                        if old_icons.contains_key(k) {
                        }
                    }
                    lemma_apply_ops_push(old_apps, old_ops, AppOpView::PushBack(self.apps@.last()@));
                    assert(ops_view(ops@) =~= old_ops.push(AppOpView::PushBack(self.apps@.last()@)));
                    assert(ops_view(ops@) =~= seq![AppOpView::Clear] + buttons_view(self.apps@).map_values(
                        |b: ButtonView| AppOpView::PushBack(b),
                    ));
                    vis = nvis;
                }
            } else {
                proof {
                    assert(foreign_windows(wsv.take(i + 1)) == vis);
                }
            }
            i = i + 1;
        }
        proof {
            assert(wsv.take(windows@.len() as int) =~= wsv);
            match focused {
                Some(x) => lemma_first_focused_found(vis, fk),
                None => {},
            }
        }
        self.focused_window = focused;
        self.apps_count = self.apps.len();
        ops
    }
}

fn same_window(a: Option<u64>, b: Option<u64>) -> (r: bool)
    ensures
        r == (a == b),
{
    match (a, b) {
        (Some(x), Some(y)) => x == y,
        (None, None) => true,
        _ => false,
    }
}

impl DockModel {
    fn upsert_app<F: Fn(&str) -> Option<String>>(&mut self, w: &Window, lookup: &F) -> (ops: Vec<AppOp>)
        requires
            forall|s: &str| #[trigger] lookup.requires((s,)),
        ensures
            upserted(old(self)@, final(self)@, w@, *lookup, ops_view(ops@)),
            apply_ops(old(self)@.apps, ops_view(ops@)) == final(self)@.apps,
    {
        let ghost old_bv = buttons_view(self.apps@);
        let index = window_index(&self.apps, w.id);
        let app_id = window_app_id(w);
        let icon = self.icons.icon_name_for_app_id(app_id.as_str(), lookup);
        let mut ops: Vec<AppOp> = Vec::new();
        match index {
            Some(i) => {
                let title = window_title(w);
                let sent = icon_button::Input::Update { icon_name: icon.clone(), title: title.clone() };
                let _ = self.apps[i].update(icon_button::Input::Update { icon_name: icon, title });
                ops.push(AppOp::Send(i, sent));
                proof {
                    assert(buttons_view(self.apps@) =~= old_bv.update(
                        i as int,
                        ButtonView { icon_name: icon_for(self.icons@, app_id_of(w@)), title: title_of(w@), ..old_bv[i as int] },
                    ));
                }
            },
            None => {
                let b = IconButtonModel::init_model(icon.clone(), Action::Focus(w.id), w.is_focused, window_title(w));
                let b2 = IconButtonModel::init_model(icon, Action::Focus(w.id), w.is_focused, window_title(w));
                self.apps.push(b);
                ops.push(AppOp::PushBack(b2));
                proof {
                    assert(buttons_view(self.apps@) =~= old_bv.push(button_for(w@, icon_for(self.icons@, app_id_of(w@)))));
                }
            },
        }
        proof {
            assert(ops_view(ops@) =~= seq![ops@[0]@]);
            lemma_apply_ops_push(old_bv, Seq::empty(), ops@[0]@);
            assert(seq![ops@[0]@] =~= Seq::<AppOpView>::empty().push(ops@[0]@));
        }
        self.apps_count = self.apps.len();
        ops
    }

    fn remove_app(&mut self, id: u64) -> (ops: Vec<AppOp>)
        ensures
            match app_index(old(self)@.apps, id) {
                Some(i) => final(self)@.apps == old(self)@.apps.remove(i) && ops_view(ops@) == seq![AppOpView::Remove(i)],
                None => final(self)@.apps == old(self)@.apps && ops_view(ops@) == Seq::<AppOpView>::empty(),
            },
            final(self)@.apps_count == final(self)@.apps.len(),
            final(self)@.focused_window == old(self)@.focused_window,
            final(self)@.icons == old(self)@.icons,
            final(self)@.visible == old(self)@.visible,
            final(self)@.launchables == old(self)@.launchables,
            apply_ops(old(self)@.apps, ops_view(ops@)) == final(self)@.apps,
    {
        let ghost old_bv = buttons_view(self.apps@);
        let mut ops: Vec<AppOp> = Vec::new();
        match window_index(&self.apps, id) {
            Some(i) => {
                let _ = self.apps.remove(i);
                ops.push(AppOp::Remove(i));
                proof {
                    assert(buttons_view(self.apps@) =~= old_bv.remove(i as int));
                    assert(ops_view(ops@) =~= seq![AppOpView::Remove(i as int)]);
                    lemma_apply_ops_push(old_bv, Seq::empty(), AppOpView::Remove(i as int));
                    assert(seq![AppOpView::Remove(i as int)] =~= Seq::<AppOpView>::empty().push(AppOpView::Remove(i as int)));
                }
            },
            None => {
                proof {
                    assert(ops_view(ops@) =~= Seq::<AppOpView>::empty());
                }
            },
        }
        self.apps_count = self.apps.len();
        ops
    }

    fn update_focus(&mut self, focused_id: Option<u64>) -> (ops: Vec<AppOp>)
        ensures
            refocused_all(old(self)@, final(self)@, focused_id, ops_view(ops@)),
            apply_ops(old(self)@.apps, ops_view(ops@)) == final(self)@.apps,
    {
        let ghost old_bv = buttons_view(self.apps@);
        let old_f = self.focused_window;
        let mut ops: Vec<AppOp> = Vec::new();
        let mut i: usize = 0;
        assert(ops_view(ops@) =~= Seq::<AppOpView>::empty());
        while i < self.apps.len()
            invariant
                i <= self.apps@.len(),
                self.apps@.len() == old_bv.len(),
                old_f == old(self).focused_window,
                forall|j: int| 0 <= j < i ==> #[trigger] buttons_view(self.apps@)[j] == refocused(old_bv[j], old_f, focused_id),
                forall|j: int| i <= j < old_bv.len() ==> #[trigger] buttons_view(self.apps@)[j] == old_bv[j],
                ops_view(ops@) == focus_ops(old_bv, old_f, focused_id, i as int),
                apply_ops(old_bv, ops_view(ops@)) == buttons_view(self.apps@),
                self.visible == old(self).visible,
                self.launchables == old(self).launchables,
                self.icons == old(self).icons,
                self.apps_count == old(self).apps_count,
                self.focused_window == old(self).focused_window,
            decreases old_bv.len() - i,
        {
            let ghost cur = buttons_view(self.apps@);
            let ghost cur_ops = ops_view(ops@);
            let id = self.apps[i].window_id();
            assert(cur[i as int] == old_bv[i as int]);
            if same_window(id, old_f) || same_window(id, focused_id) {
                let focused = same_window(id, focused_id);
                let _ = self.apps[i].update(icon_button::Input::SetFocused(focused));
                ops.push(AppOp::Send(i, icon_button::Input::SetFocused(focused)));
                proof {
                    let op = AppOpView::Send(i as int, InputView::SetFocused(focused));
                    assert(ops_view(ops@) =~= cur_ops.push(op));
                    lemma_apply_ops_push(old_bv, cur_ops, op);
                    assert(buttons_view(self.apps@) =~= cur.update(i as int, button_after(cur[i as int], InputView::SetFocused(focused))));
                }
            }
            i = i + 1;
        }
        proof {
            assert(buttons_view(self.apps@) =~= Seq::new(old_bv.len(), |j: int| refocused(old_bv[j], old_f, focused_id)));
        }
        self.focused_window = focused_id;
        ops
    }
}

/// What handling one message asks of the surrounding application: a message
/// to forward, whether the hover indicator must be told the pointer left,
/// and the changes to apply to the row of window buttons.
pub struct Effects {
    pub output: Option<Output>,
    pub leave_indicator: bool,
    pub app_ops: Vec<AppOp>,
}

/// The dock is hidden, with no window buttons, no focused window and no
/// cached icons, and shows `launchables`.
pub open spec fn initial_dock(launchables: Seq<ButtonView>) -> DockView {
    DockView {
        visible: false,
        apps: Seq::empty(),
        launchables,
        focused_window: None,
        apps_count: 0,
        icons: Map::empty(),
    }
}

/// The dock state and button changes after niri reported `ev`.
pub open spec fn handled_event<F: Fn(&str) -> Option<String>>(
    old: DockView,
    new: DockView,
    ev: Event,
    lookup: F,
    ops: Seq<AppOpView>,
) -> bool {
    match ev {
        Event::WindowsChanged { windows } => replaced_all(
            old,
            new,
            windows@.map_values(|w: Window| w@),
            lookup,
            ops,
        ),
        Event::WindowOpenedOrChanged { window } => if own_window(window@) {
            new == old && ops.len() == 0
        } else {
            upserted(old, new, window@, lookup, ops)
        },
        Event::WindowClosed { id } => closed_window(old, new, id, ops),
        Event::WindowFocusChanged { id } => if id != old.focused_window {
            refocused_all(old, new, id, ops)
        } else {
            new == old && ops.len() == 0
        },
        Event::Other => new == old && ops.len() == 0,
    }
}

impl DockModel {
    /// A hidden dock with the given launcher buttons and no window buttons.
    pub fn new(launchables: Vec<IconButtonModel>) -> (d: Self)
        ensures
            d@ == initial_dock(buttons_view(launchables@)),
    {
        let d = DockModel {
            visible: false,
            apps: Vec::new(),
            launchables,
            focused_window: None,
            apps_count: 0,
            icons: IconCache::new(),
        };
        assert(buttons_view(d.apps@) =~= Seq::<ButtonView>::empty());
        d
    }

    pub fn visible(&self) -> (b: bool)
        ensures
            b == self@.visible,
    {
        self.visible
    }

    pub fn apps(&self) -> (a: &Vec<IconButtonModel>)
        ensures
            buttons_view(a@) == self@.apps,
    {
        &self.apps
    }

    pub fn launchables(&self) -> (a: &Vec<IconButtonModel>)
        ensures
            buttons_view(a@) == self@.launchables,
    {
        &self.launchables
    }

    pub fn focused_window(&self) -> (f: Option<u64>)
        ensures
            f == self@.focused_window,
    {
        self.focused_window
    }

    pub fn apps_count(&self) -> (n: usize)
        ensures
            n == self@.apps_count,
    {
        self.apps_count
    }

    /// Handles one message. Pointer enter and leave show and hide the dock
    /// (leaving also re-arms the hover indicator); focus and launch requests
    /// from buttons are forwarded; niri events update the window buttons,
    /// with icons resolved through `lookup` (desktop-file id to icon name).
    pub fn update<F: Fn(&str) -> Option<String>>(&mut self, msg: Input, lookup: &F) -> (eff: Effects)
        requires
            forall|s: &str| #[trigger] lookup.requires((s,)),
        ensures
            apply_ops(old(self)@.apps, ops_view(eff.app_ops@)) == final(self)@.apps,
            old(self)@.apps_count == old(self)@.apps.len() ==> final(self)@.apps_count == final(self)@.apps.len(),
            match msg {
                Input::Enter => {
                    &&& final(self)@ == DockView { visible: true, ..old(self)@ }
                    &&& eff.output is None && !eff.leave_indicator && eff.app_ops@.len() == 0
                },
                Input::Leave => {
                    &&& final(self)@ == DockView { visible: false, ..old(self)@ }
                    &&& eff.output is None && eff.leave_indicator && eff.app_ops@.len() == 0
                },
                Input::Focus(x) => {
                    &&& final(self)@ == old(self)@
                    &&& eff.output matches Some(Output::Focus(y)) && y == x
                    &&& !eff.leave_indicator && eff.app_ops@.len() == 0
                },
                Input::Launch(cmd) => {
                    &&& final(self)@ == old(self)@
                    &&& eff.output == Some(Output::Launch(cmd))
                    &&& !eff.leave_indicator && eff.app_ops@.len() == 0
                },
                Input::NiriEvent(ev) => {
                    &&& handled_event(old(self)@, final(self)@, ev, *lookup, ops_view(eff.app_ops@))
                    &&& eff.output is None && !eff.leave_indicator
                },
            },
    {
        let no_ops: Vec<AppOp> = Vec::new();
        assert(ops_view(no_ops@) =~= Seq::<AppOpView>::empty());
        match msg {
            Input::Launch(x) => Effects { output: Some(Output::Launch(x)), leave_indicator: false, app_ops: no_ops },
            Input::Focus(x) => Effects { output: Some(Output::Focus(x)), leave_indicator: false, app_ops: no_ops },
            Input::Enter => {
                self.visible = true;
                Effects { output: None, leave_indicator: false, app_ops: no_ops }
            },
            Input::Leave => {
                self.visible = false;
                Effects { output: None, leave_indicator: true, app_ops: no_ops }
            },
            Input::NiriEvent(event) => {
                let ops = match event {
                    Event::WindowsChanged { windows } => self.replace_all_apps(windows, lookup),
                    Event::WindowOpenedOrChanged { window } => {
                        if !is_own_window(&window) {
                            self.upsert_app(&window, lookup)
                        } else {
                            no_ops
                        }
                    },
                    Event::WindowClosed { id } => {
                        if same_window(self.focused_window, Some(id)) {
                            self.focused_window = None;
                        }
                        self.remove_app(id)
                    },
                    Event::WindowFocusChanged { id: focused_id } => {
                        if !same_window(focused_id, self.focused_window) {
                            self.update_focus(focused_id)
                        } else {
                            no_ops
                        }
                    },
                    Event::Other => no_ops,
                };
                Effects { output: None, leave_indicator: false, app_ops: ops }
            },
        }
    }
}

/// The button for the launcher `e`, given as its name and launcher.
pub open spec fn launcher_button(e: (Seq<char>, LaunchableView)) -> ButtonView {
    ButtonView { icon_name: e.1.icon, action: ActionView::Launch(e.1.command), focused: false, title: e.0 }
}

/// One button per configured launcher, in name order: the launcher's icon,
/// its command as the action, and its name as the title.
pub fn launcher_buttons(config: &Config) -> (bs: Vec<IconButtonModel>)
    ensures
        buttons_view(bs@) == config@.map_values(|e: (Seq<char>, LaunchableView)| launcher_button(e)),
        sorted_by_name(config@),
{
    let entries = config.launchables();
    let mut bs: Vec<IconButtonModel> = Vec::new();
    let mut i: usize = 0;
    while i < entries.len()
        invariant
            i <= entries@.len(),
            launchers::pairs_view(entries@) == config@,
            buttons_view(bs@) == config@.take(i as int).map_values(|e: (Seq<char>, LaunchableView)| launcher_button(e)),
        decreases entries@.len() - i,
    {
        let (name, l) = &entries[i];
        let b = IconButtonModel::init_model(l.icon.clone(), Action::Launch(l.command.clone()), false, name.clone());
        let ghost old_bs = buttons_view(bs@);
        let ghost bv = b@;
        bs.push(b);
        proof {
            assert(buttons_view(bs@) =~= old_bs.push(bv));
            assert(bv == launcher_button(config@[i as int]));
            assert(config@[i as int] == (entries@[i as int].0@, entries@[i as int].1@));
            assert(config@.take(i + 1) =~= config@.take(i as int).push(config@[i as int]));
            assert(buttons_view(bs@) =~= config@.take(i + 1).map_values(
                |e: (Seq<char>, LaunchableView)| launcher_button(e),
            ));
        }
        i = i + 1;
    }
    assert(config@.take(entries@.len() as int) =~= config@);
    bs
}

impl DockModel {
    /// The dock as it starts: hidden, with the configured launchers.
    pub fn init(config: &Config) -> (d: Self)
        ensures
            d@ == initial_dock(config@.map_values(|e: (Seq<char>, LaunchableView)| launcher_button(e))),
            sorted_by_name(config@),
            d@.launchables.len() == config@.len(),
            forall|i: int|
                0 <= i < config@.len() ==> {
                    &&& (#[trigger] d@.launchables[i]).icon_name == config@[i].1.icon
                    &&& d@.launchables[i].action == ActionView::Launch(config@[i].1.command)
                    &&& d@.launchables[i].title == config@[i].0
                    &&& !d@.launchables[i].focused
                },
    {
        let d = DockModel::new(launcher_buttons(config));
        proof {
            lemma_launcher_buttons_show_config(config@, d@.launchables);
        }
        d
    }
}

impl Input {
    /// The dock message for what a button reports.
    pub fn from_button(out: icon_button::Output) -> (i: Input)
        ensures
            match out {
                icon_button::Output::Focus(id) => i matches Input::Focus(x) && x == id,
                icon_button::Output::Launch(cmd) => i == Input::Launch(cmd),
            },
    {
        match out {
            icon_button::Output::Focus(x) => Input::Focus(x),
            icon_button::Output::Launch(x) => Input::Launch(x),
        }
    }

    /// The dock message for what the hover indicator reports.
    pub fn from_indicator(out: indicator::Output) -> (i: Input)
        ensures
            i is Enter,
    {
        match out {
            indicator::Output::Enter => Input::Enter,
        }
    }
}

/// No two windows of `ws` share an id.
pub open spec fn window_ids_distinct(ws: Seq<WindowView>) -> bool {
    forall|i: int, j: int| 0 <= i < ws.len() && 0 <= j < ws.len() && i != j ==> #[trigger] ws[i].id != #[trigger] ws[j].id
}

/// At most one window of `ws` is focused.
pub open spec fn at_most_one_focused(ws: Seq<WindowView>) -> bool {
    forall|i: int, j: int|
        0 <= i < ws.len() && 0 <= j < ws.len() && #[trigger] ws[i].is_focused && #[trigger] ws[j].is_focused ==> i == j
}

/// Every button of `apps` focuses a window, and no two the same one.
pub open spec fn window_buttons_unique(apps: Seq<ButtonView>) -> bool {
    &&& forall|i: int| 0 <= i < apps.len() ==> (#[trigger] apps[i]).action is Focus
    &&& forall|i: int, j: int|
        0 <= i < apps.len() && 0 <= j < apps.len() && i != j ==> #[trigger] apps[i].action != #[trigger] apps[j].action
}

/// A button is highlighted exactly when it shows the focused window.
pub open spec fn highlight_matches_focus(d: DockView) -> bool {
    forall|i: int|
        0 <= i < d.apps.len() ==> (#[trigger] d.apps[i]).focused == (action_window(d.apps[i].action) == d.focused_window)
}

proof fn lemma_foreign_windows_from(ws: Seq<WindowView>)
    ensures
        forall|i: int| 0 <= i < foreign_windows(ws).len() ==> exists|a: int| 0 <= a < ws.len() && ws[a] == #[trigger] foreign_windows(ws)[i],
        forall|i: int| 0 <= i < foreign_windows(ws).len() ==> !own_window(#[trigger] foreign_windows(ws)[i]),
        window_ids_distinct(ws) ==> window_ids_distinct(foreign_windows(ws)),
        at_most_one_focused(ws) ==> at_most_one_focused(foreign_windows(ws)),
    decreases ws.len(),
{
    if ws.len() > 0 {
        let init = ws.drop_last();
        lemma_foreign_windows_from(init);
        let fw = foreign_windows(ws);
        let fi = foreign_windows(init);
        assert forall|i: int| 0 <= i < fw.len() implies exists|a: int| 0 <= a < ws.len() && ws[a] == #[trigger] fw[i] by {
            if i < fi.len() {
                assert(fw[i] == fi[i]);
                let a = choose|a: int| 0 <= a < init.len() && init[a] == #[trigger] fi[i];
                assert(ws[a] == init[a]);
            } else {
                assert(fw[i] == ws.last());
                assert(ws[ws.len() - 1] == ws.last());
            }
        }
        if window_ids_distinct(ws) {
            assert(window_ids_distinct(init)) by {
                assert forall|i: int, j: int| 0 <= i < init.len() && 0 <= j < init.len() && i != j implies #[trigger] init[i].id
                    != #[trigger] init[j].id by {
                    assert(init[i] == ws[i] && init[j] == ws[j]);
                }
            }
            if !own_window(ws.last()) {
                assert forall|i: int| 0 <= i < fi.len() implies (#[trigger] fi[i]).id != ws.last().id by {
                    let a = choose|a: int| 0 <= a < init.len() && init[a] == #[trigger] fi[i];
                    assert(ws[a] == init[a]);
                    assert(ws[ws.len() - 1] == ws.last());
                }
                assert forall|i: int, j: int| 0 <= i < fw.len() && 0 <= j < fw.len() && i != j implies #[trigger] fw[i].id
                    != #[trigger] fw[j].id by {
                    if i < fi.len() && j < fi.len() {
                        assert(fw[i] == fi[i] && fw[j] == fi[j]);
                    } else if i < fi.len() {
                        assert(fw[i] == fi[i]);
                    } else {
                        assert(fw[j] == fi[j]);
                    }
                }
            }
        }
        if at_most_one_focused(ws) {
            assert(at_most_one_focused(init)) by {
                assert forall|i: int, j: int|
                    0 <= i < init.len() && 0 <= j < init.len() && #[trigger] init[i].is_focused && #[trigger] init[j].is_focused implies i == j by {
                    assert(init[i] == ws[i] && init[j] == ws[j]);
                }
            }
            if !own_window(ws.last()) {
                if ws.last().is_focused {
                    assert forall|i: int| 0 <= i < fi.len() implies !(#[trigger] fi[i]).is_focused by {
                        let a = choose|a: int| 0 <= a < init.len() && init[a] == #[trigger] fi[i];
                        assert(ws[a] == init[a]);
                        assert(ws[ws.len() - 1] == ws.last());
                    }
                }
                assert forall|i: int, j: int|
                    0 <= i < fw.len() && 0 <= j < fw.len() && #[trigger] fw[i].is_focused && #[trigger] fw[j].is_focused implies i == j by {
                    if i < fi.len() && j < fi.len() {
                        assert(fw[i] == fi[i] && fw[j] == fi[j]);
                    } else if i < fi.len() {
                        assert(fw[i] == fi[i]);
                    } else if j < fi.len() {
                        assert(fw[j] == fi[j]);
                    }
                }
            }
        }
    }
}

/// Handling any message keeps one button per window: a window that changes
/// gets its existing button updated rather than a second one, provided the
/// full window lists niri sends carry distinct ids.
pub proof fn lemma_buttons_stay_unique<F: Fn(&str) -> Option<String>>(
    old: DockView,
    new: DockView,
    ev: Event,
    lookup: F,
    ops: Seq<AppOpView>,
)
    requires
        handled_event(old, new, ev, lookup, ops),
        window_buttons_unique(old.apps),
        ev matches Event::WindowsChanged { windows } ==> window_ids_distinct(windows@.map_values(|w: Window| w@)),
    ensures
        window_buttons_unique(new.apps),
{
    match ev {
        Event::WindowsChanged { windows } => {
            let ws = windows@.map_values(|w: Window| w@);
            lemma_foreign_windows_from(ws);
            let vis = foreign_windows(ws);
            assert forall|i: int, j: int|
                0 <= i < new.apps.len() && 0 <= j < new.apps.len() && i != j implies #[trigger] new.apps[i].action
                != #[trigger] new.apps[j].action by {
                assert(new.apps[i].action == ActionView::Focus(vis[i].id));
                assert(new.apps[j].action == ActionView::Focus(vis[j].id));
            }
        },
        Event::WindowOpenedOrChanged { window } => {
            if !own_window(window@) {
                let w = window@;
                match app_index(old.apps, w.id) {
                    Some(i) => {
                        assert forall|j: int| 0 <= j < new.apps.len() implies (#[trigger] new.apps[j]).action == old.apps[j].action by {}
                    },
                    None => {
                        assert forall|j: int| 0 <= j < old.apps.len() implies (#[trigger] old.apps[j]).action != ActionView::Focus(w.id) by {
                            if old.apps[j].action == ActionView::Focus(w.id) {
                                assert(shows_window(old.apps, j, w.id));
                            }
                        }
                        assert forall|i: int, j: int|
                            0 <= i < new.apps.len() && 0 <= j < new.apps.len() && i != j implies #[trigger] new.apps[i].action
                            != #[trigger] new.apps[j].action by {
                            if i < old.apps.len() && j < old.apps.len() {
                                assert(new.apps[i] == old.apps[i] && new.apps[j] == old.apps[j]);
                            } else if i < old.apps.len() {
                                assert(new.apps[i] == old.apps[i]);
                            } else {
                                assert(new.apps[j] == old.apps[j]);
                            }
                        }
                        assert forall|i: int| 0 <= i < new.apps.len() implies (#[trigger] new.apps[i]).action is Focus by {
                            if i < old.apps.len() {
                                assert(new.apps[i] == old.apps[i]);
                            }
                        }
                    },
                }
            }
        },
        Event::WindowClosed { id } => {
            match app_index(old.apps, id) {
                Some(i) => {
                    assert forall|j: int| 0 <= j < new.apps.len() implies (#[trigger] new.apps[j]) == old.apps[if j < i { j } else { j + 1 }] by {}
                    assert forall|a: int, b: int|
                        0 <= a < new.apps.len() && 0 <= b < new.apps.len() && a != b implies #[trigger] new.apps[a].action
                        != #[trigger] new.apps[b].action by {
                        let aa = if a < i { a } else { a + 1 };
                        let bb = if b < i { b } else { b + 1 };
                        assert(new.apps[a] == old.apps[aa] && new.apps[b] == old.apps[bb]);
                    }
                    assert forall|j: int| 0 <= j < new.apps.len() implies (#[trigger] new.apps[j]).action is Focus by {
                        let jj = if j < i { j } else { j + 1 };
                        assert(new.apps[j] == old.apps[jj]);
                    }
                },
                None => {},
            }
        },
        Event::WindowFocusChanged { id } => {
            if id != old.focused_window {
                assert forall|j: int| 0 <= j < new.apps.len() implies (#[trigger] new.apps[j]).action == old.apps[j].action by {}
            }
        },
        Event::Other => {},
    }
}

/// The highlighted buttons follow niri's focus: if a button was highlighted
/// exactly when it showed the focused window, that still holds after any
/// event, provided every button shows a distinct window, full window lists
/// carry distinct ids and at most one focused window, and a window that opens or changes
/// reports the focus the dock already recorded for it.
pub proof fn lemma_highlight_follows_focus<F: Fn(&str) -> Option<String>>(
    old: DockView,
    new: DockView,
    ev: Event,
    lookup: F,
    ops: Seq<AppOpView>,
)
    requires
        handled_event(old, new, ev, lookup, ops),
        window_buttons_unique(old.apps),
        highlight_matches_focus(old),
        ev matches Event::WindowsChanged { windows } ==> at_most_one_focused(windows@.map_values(|w: Window| w@))
            && window_ids_distinct(windows@.map_values(|w: Window| w@)),
        ev matches Event::WindowOpenedOrChanged { window } ==> window@.is_focused == (old.focused_window == Some(window@.id)),
    ensures
        highlight_matches_focus(new),
{
    match ev {
        Event::WindowsChanged { windows } => {
            let ws = windows@.map_values(|w: Window| w@);
            lemma_foreign_windows_from(ws);
            let vis = foreign_windows(ws);
            assert forall|i: int| 0 <= i < new.apps.len() implies (#[trigger] new.apps[i]).focused == (action_window(
                new.apps[i].action,
            ) == new.focused_window) by {
                assert(new.apps[i].focused == vis[i].is_focused);
                assert(action_window(new.apps[i].action) == Some(vis[i].id));
                if vis[i].is_focused {
                    assert(forall|j: int| 0 <= j < i ==> !(#[trigger] vis[j]).is_focused);
                    lemma_first_focused_found(vis, i);
                } else if exists|k: int| 0 <= k < vis.len() && vis[k].is_focused {
                    let k = choose|k: int|
                        0 <= k < vis.len() && vis[k].is_focused && forall|j: int| 0 <= j < k ==> !(#[trigger] vis[j]).is_focused;
                    assert(0 <= k < vis.len() && vis[k].is_focused);
                    assert(new.focused_window == Some(vis[k].id));
                    assert(k != i);
                    assert(vis[k].id != vis[i].id);
                }
            }
        },
        Event::WindowOpenedOrChanged { window } => {
            if !own_window(window@) {
                let w = window@;
                match app_index(old.apps, w.id) {
                    Some(i) => {},
                    None => {
                        assert forall|j: int| 0 <= j < new.apps.len() implies (#[trigger] new.apps[j]).focused == (action_window(
                            new.apps[j].action,
                        ) == new.focused_window) by {
                            if j < old.apps.len() {
                                assert(new.apps[j] == old.apps[j]);
                            }
                        }
                    },
                }
            }
        },
        Event::WindowClosed { id } => {
            match app_index(old.apps, id) {
                Some(i) => {
                    assert(shows_window(old.apps, i, id));
                    assert forall|j: int| 0 <= j < new.apps.len() implies (#[trigger] new.apps[j]).focused == (action_window(
                        new.apps[j].action,
                    ) == new.focused_window) by {
                        let jj = if j < i { j } else { j + 1 };
                        assert(new.apps[j] == old.apps[jj]);
                        assert(old.apps[jj].action != old.apps[i].action);
                    }
                },
                None => {
                    assert forall|j: int| 0 <= j < new.apps.len() implies (#[trigger] new.apps[j]).focused == (action_window(
                        new.apps[j].action,
                    ) == new.focused_window) by {
                        assert(!shows_window(old.apps, j, id));
                    }
                },
            }
        },
        Event::WindowFocusChanged { id } => {
            if id != old.focused_window {
                assert forall|j: int| 0 <= j < new.apps.len() implies (#[trigger] new.apps[j]).focused == (action_window(
                    new.apps[j].action,
                ) == new.focused_window) by {
                    assert(new.apps[j] == refocused(old.apps[j], old.focused_window, id));
                }
            }
        },
        Event::Other => {},
    }
}

/// The windows that `ev` reports.
pub open spec fn event_windows(ev: Event) -> Seq<WindowView> {
    match ev {
        Event::WindowsChanged { windows } => windows@.map_values(|w: Window| w@),
        Event::WindowOpenedOrChanged { window } => seq![window@],
        _ => Seq::empty(),
    }
}

/// `b` is the button of a window of `ws` that is not one of the dock's own.
pub open spec fn from_foreign_window(b: ButtonView, ws: Seq<WindowView>) -> bool {
    exists|j: int|
        0 <= j < ws.len() && !own_window(#[trigger] ws[j]) && b.action == ActionView::Focus(ws[j].id) && b.title
            == title_of(ws[j])
}

/// The dock's own windows never get a button: after any event, each button
/// either focuses the same window as a button the dock already had, or was
/// made from a window of the event that is not one of the dock's own.
pub proof fn lemma_no_button_for_own_windows<F: Fn(&str) -> Option<String>>(
    old: DockView,
    new: DockView,
    ev: Event,
    lookup: F,
    ops: Seq<AppOpView>,
)
    requires
        handled_event(old, new, ev, lookup, ops),
    ensures
        forall|i: int|
            0 <= i < new.apps.len() ==> (exists|k: int|
                0 <= k < old.apps.len() && (#[trigger] new.apps[i]).action == (#[trigger] old.apps[k]).action)
                || from_foreign_window(new.apps[i], event_windows(ev)),
{
    match ev {
        Event::WindowsChanged { windows } => {
            let ws = windows@.map_values(|w: Window| w@);
            lemma_foreign_windows_from(ws);
            let vis = foreign_windows(ws);
            assert forall|i: int| 0 <= i < new.apps.len() implies from_foreign_window(new.apps[i], ws) by {
                let a = choose|a: int| 0 <= a < ws.len() && ws[a] == #[trigger] vis[i];
                assert(!own_window(vis[i]));
                assert(ws[a] == vis[i]);
                assert(new.apps[i].action == ActionView::Focus(vis[i].id));
            }
        },
        Event::WindowOpenedOrChanged { window } => {
            if !own_window(window@) {
                let w = window@;
                assert(event_windows(ev) == seq![w]);
                lemma_app_index_in_range(old.apps, w.id);
                match app_index(old.apps, w.id) {
                    Some(i) => {
                        assert forall|j: int| 0 <= j < new.apps.len() implies new.apps[j].action == (#[trigger] old.apps[j]).action by {}
                    },
                    None => {
                        assert forall|j: int| 0 <= j < new.apps.len() implies (exists|k: int|
                            0 <= k < old.apps.len() && (#[trigger] new.apps[j]).action == (#[trigger] old.apps[k]).action)
                            || from_foreign_window(new.apps[j], event_windows(ev)) by {
                            if j < old.apps.len() {
                                assert(new.apps[j] == old.apps[j]);
                            } else {
                                assert(event_windows(ev)[0] == w);
                            }
                        }
                    },
                }
            }
        },
        Event::WindowClosed { id } => {
            lemma_app_index_in_range(old.apps, id);
            match app_index(old.apps, id) {
                Some(i) => {
                    assert forall|j: int| 0 <= j < new.apps.len() implies exists|k: int|
                        0 <= k < old.apps.len() && (#[trigger] new.apps[j]).action == (#[trigger] old.apps[k]).action by {
                        let jj = if j < i { j } else { j + 1 };
                        assert(new.apps[j] == old.apps[jj]);
                    }
                },
                None => {
                    assert forall|j: int| 0 <= j < new.apps.len() implies new.apps[j].action == (#[trigger] old.apps[j]).action by {}
                },
            }
        },
        Event::WindowFocusChanged { id } => {
            assert forall|j: int| 0 <= j < new.apps.len() implies new.apps[j].action == (#[trigger] old.apps[j]).action by {
                if id != old.focused_window {
                    assert(new.apps[j] == refocused(old.apps[j], old.focused_window, id));
                }
            }
        },
        Event::Other => {
            assert forall|j: int| 0 <= j < new.apps.len() implies new.apps[j].action == (#[trigger] old.apps[j]).action by {}
        },
    }
}

/// Each launcher button shows its launcher's configured icon, launches its
/// configured command, carries its name as the title and starts
/// unhighlighted, in the configuration's order.
pub proof fn lemma_launcher_buttons_show_config(config: Seq<(Seq<char>, LaunchableView)>, bs: Seq<ButtonView>)
    requires
        bs == config.map_values(|e: (Seq<char>, LaunchableView)| launcher_button(e)),
    ensures
        bs.len() == config.len(),
        forall|i: int|
            0 <= i < config.len() ==> {
                &&& (#[trigger] bs[i]).icon_name == config[i].1.icon
                &&& bs[i].action == ActionView::Launch(config[i].1.command)
                &&& bs[i].title == config[i].0
                &&& !bs[i].focused
            },
{
}

/// The icon a window's button must show once `icons` holds what was
/// resolved: the cached icon of its application id, or the fallback icon
/// when it has no (or an empty) application id.
pub open spec fn expected_icon(icons: Map<Seq<char>, Seq<char>>, w: WindowView) -> Seq<char> {
    match w.app_id {
        Some(a) => if a.len() > 0 {
            icons[a]
        } else {
            "application-x-executable-symbolic"@
        },
        None => "application-x-executable-symbolic"@,
    }
}

/// A window that opens or changes (and is not one of the dock's own) gets
/// a button that shows the icon cached for its application id and its
/// title (else its application id, else nothing): a window without a button
/// gets a new one at the end, unhighlighted unless the window is focused,
/// with the other buttons left as they were; a window with a button has that
/// button updated in place.
pub proof fn lemma_opened_window_shows_cached_icon<F: Fn(&str) -> Option<String>>(
    old: DockView,
    new: DockView,
    window: Window,
    lookup: F,
    ops: Seq<AppOpView>,
)
    requires
        handled_event(old, new, Event::WindowOpenedOrChanged { window }, lookup, ops),
        window@.app_id != Some(APP_ID@),
    ensures
        window@.app_id matches Some(a) ==> (a.len() > 0 ==> new.icons.contains_key(a)),
        (forall|k: int| 0 <= k < old.apps.len() ==> (#[trigger] old.apps[k]).action != ActionView::Focus(window@.id))
            ==> {
            &&& new.apps.len() == old.apps.len() + 1
            &&& new.apps.drop_last() == old.apps
            &&& new.apps.last().action == ActionView::Focus(window@.id)
            &&& new.apps.last().icon_name == expected_icon(new.icons, window@)
            &&& new.apps.last().title == match window@.title {
                Some(t) => t,
                None => match window@.app_id {
                    Some(a) => a,
                    None => Seq::empty(),
                },
            }
            &&& new.apps.last().focused == window@.is_focused
        },
        forall|k: int|
            0 <= k < old.apps.len() && (#[trigger] old.apps[k]).action == ActionView::Focus(window@.id) ==> exists|
                i: int,
            |
                0 <= i < new.apps.len() && (#[trigger] new.apps[i]).action == ActionView::Focus(window@.id)
                    && new.apps[i].icon_name == expected_icon(new.icons, window@),
{
    let w = window@;
    lemma_app_index_in_range(old.apps, w.id);
    assert(icon_for(new.icons, app_id_of(w)) == expected_icon(new.icons, w));
    match app_index(old.apps, w.id) {
        Some(i) => {
            assert(new.apps[i].action == ActionView::Focus(w.id));
        },
        None => {
            assert forall|k: int| 0 <= k < old.apps.len() implies (#[trigger] old.apps[k]).action != ActionView::Focus(
                w.id,
            ) by {
                if old.apps[k].action == ActionView::Focus(w.id) {
                    assert(shows_window(old.apps, k, w.id));
                }
            }
            assert(new.apps.drop_last() =~= old.apps);
        },
    }
}

/// When window `id` closes, no button focuses it any more: its button (a
/// window has at most one) is removed and the others keep their order, and
/// the dock forgets the focus if `id` had it. This holds whichever window
/// had the focus.
pub proof fn lemma_closed_window_loses_its_button<F: Fn(&str) -> Option<String>>(
    old: DockView,
    new: DockView,
    id: u64,
    lookup: F,
    ops: Seq<AppOpView>,
)
    requires
        handled_event(old, new, Event::WindowClosed { id }, lookup, ops),
        forall|i: int, j: int|
            0 <= i < old.apps.len() && 0 <= j < old.apps.len() && i != j && (#[trigger] old.apps[i]).action
                == ActionView::Focus(id) ==> (#[trigger] old.apps[j]).action != ActionView::Focus(id),
    ensures
        forall|i: int| 0 <= i < new.apps.len() ==> (#[trigger] new.apps[i]).action != ActionView::Focus(id),
        forall|k: int|
            0 <= k < old.apps.len() && (#[trigger] old.apps[k]).action == ActionView::Focus(id) ==> new.apps
                == old.apps.remove(k),
        (forall|k: int| 0 <= k < old.apps.len() ==> (#[trigger] old.apps[k]).action != ActionView::Focus(id))
            ==> new.apps == old.apps,
        new.focused_window == (if old.focused_window == Some(id) {
            None
        } else {
            old.focused_window
        }),
{
    lemma_app_index_in_range(old.apps, id);
    match app_index(old.apps, id) {
        Some(i) => {
            assert(old.apps[i].action == ActionView::Focus(id));
            assert forall|k: int|
                0 <= k < old.apps.len() && (#[trigger] old.apps[k]).action == ActionView::Focus(id) implies new.apps
                == old.apps.remove(k) by {
                if k != i {
                    assert(old.apps[i].action != ActionView::Focus(id));
                }
            }
            assert forall|j: int| 0 <= j < new.apps.len() implies (#[trigger] new.apps[j]).action != ActionView::Focus(
                id,
            ) by {
                let jj = if j < i { j } else { j + 1 };
                assert(new.apps[j] == old.apps[jj]);
                assert(jj != i);
            }
        },
        None => {
            assert forall|j: int| 0 <= j < new.apps.len() implies (#[trigger] new.apps[j]).action != ActionView::Focus(
                id,
            ) by {
                if new.apps[j].action == ActionView::Focus(id) {
                    assert(shows_window(old.apps, j, id));
                }
            }
            assert forall|k: int| 0 <= k < old.apps.len() implies (#[trigger] old.apps[k]).action != ActionView::Focus(
                id,
            ) by {
                if old.apps[k].action == ActionView::Focus(id) {
                    assert(shows_window(old.apps, k, id));
                }
            }
        },
    }
}

} // verus!
