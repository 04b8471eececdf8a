use vstd::prelude::*;

verus! {

/// What clicking a dock button does: focus an open window, or launch a command.
#[derive(Debug)]
pub enum Action {
    Focus(u64),
    Launch(String),
}

/// The spec value of an [`Action`].
pub enum ActionView {
    Focus(u64),
    Launch(Seq<char>),
}

impl View for Action {
    type V = ActionView;

    open spec fn view(&self) -> ActionView {
        match self {
            Action::Focus(id) => ActionView::Focus(*id),
            Action::Launch(cmd) => ActionView::Launch(cmd@),
        }
    }
}

impl Action {
    pub fn clone_action(&self) -> (a: Action)
        ensures
            a@ == self@,
    {
        match self {
            Action::Focus(id) => Action::Focus(*id),
            Action::Launch(cmd) => Action::Launch(cmd.clone()),
        }
    }
}

/// One button of the dock: an icon, a tooltip title, whether it is drawn as
/// focused, and the action it triggers.
pub struct IconButtonModel {
    icon_name: String,
    action: Action,
    focused: bool,
    title: String,
}

/// The spec value of an [`IconButtonModel`].
pub struct ButtonView {
    pub icon_name: Seq<char>,
    pub action: ActionView,
    pub focused: bool,
    pub title: Seq<char>,
}

impl View for IconButtonModel {
    type V = ButtonView;

    closed spec fn view(&self) -> ButtonView {
        ButtonView {
            icon_name: self.icon_name@,
            action: self.action@,
            focused: self.focused,
            title: self.title@,
        }
    }
}

/// What a button reports when it is clicked.
#[derive(Debug)]
pub enum Output {
    Focus(u64),
    Launch(String),
}

/// The spec value of an [`Output`].
pub enum OutputView {
    Focus(u64),
    Launch(Seq<char>),
}

impl View for Output {
    type V = OutputView;

    open spec fn view(&self) -> OutputView {
        match self {
            Output::Focus(id) => OutputView::Focus(*id),
            Output::Launch(cmd) => OutputView::Launch(cmd@),
        }
    }
}

/// Messages a button accepts.
#[derive(Debug)]
pub enum Input {
    Clicked,
    SetFocused(bool),
    SetTitle(String),
    SetIcon(String),
    Update { icon_name: String, title: String },
}

/// The spec value of an [`Input`].
pub enum InputView {
    Clicked,
    SetFocused(bool),
    SetTitle(Seq<char>),
    SetIcon(Seq<char>),
    Update { icon_name: Seq<char>, title: Seq<char> },
}

impl View for Input {
    type V = InputView;

    open spec fn view(&self) -> InputView {
        match self {
            Input::Clicked => InputView::Clicked,
            Input::SetFocused(f) => InputView::SetFocused(*f),
            Input::SetTitle(t) => InputView::SetTitle(t@),
            Input::SetIcon(i) => InputView::SetIcon(i@),
            Input::Update { icon_name, title } => InputView::Update { icon_name: icon_name@, title: title@ },
        }
    }
}

/// The output a click on a button with `action` produces.
pub open spec fn click_output(action: ActionView) -> OutputView {
    match action {
        ActionView::Focus(id) => OutputView::Focus(id),
        ActionView::Launch(cmd) => OutputView::Launch(cmd),
    }
}

/// The button `b` becomes after handling `msg`.
pub open spec fn button_after(b: ButtonView, msg: InputView) -> ButtonView {
    match msg {
        InputView::Clicked => b,
        InputView::SetFocused(f) => ButtonView { focused: f, ..b },
        InputView::SetTitle(t) => ButtonView { title: t, ..b },
        InputView::SetIcon(i) => ButtonView { icon_name: i, ..b },
        InputView::Update { icon_name, title } => ButtonView { icon_name, title, ..b },
    }
}

/// The window a button with `action` stands for, if it stands for one.
pub open spec fn action_window(action: ActionView) -> Option<u64> {
    match action {
        ActionView::Focus(id) => Some(id),
        ActionView::Launch(_) => None,
    }
}

impl IconButtonModel {
    /// A button built from its icon, action, focus state and title.
    pub fn init_model(icon_name: String, action: Action, focused: bool, title: String) -> (b: Self)
        ensures
            b@ == (ButtonView { icon_name: icon_name@, action: action@, focused, title: title@ }),
    {
        IconButtonModel { icon_name, action, focused, title }
    }

    pub fn icon_name(&self) -> (s: &String)
        ensures
            s@ == self@.icon_name,
    {
        &self.icon_name
    }

    pub fn action(&self) -> (a: &Action)
        ensures
            a@ == self@.action,
    {
        &self.action
    }

    pub fn focused(&self) -> (f: bool)
        ensures
            f == self@.focused,
    {
        self.focused
    }

    pub fn title(&self) -> (s: &String)
        ensures
            s@ == self@.title,
    {
        &self.title
    }

    /// The window this button focuses, or `None` for a launcher.
    pub fn window_id(&self) -> (id: Option<u64>)
        ensures
            id == action_window(self@.action),
    {
        match &self.action {
            Action::Focus(id) => Some(*id),
            Action::Launch(_) => None,
        }
    }

    /// Handles `msg`: a click reports the button's action, the other messages
    /// change the button's state.
    pub fn update(&mut self, msg: Input) -> (out: Option<Output>)
        ensures
            final(self)@ == button_after(old(self)@, msg@),
            msg is Clicked ==> (out matches Some(o) && o@ == click_output(old(self)@.action)),
            !(msg is Clicked) ==> out is None,
    {
        match msg {
            Input::Clicked => {
                let out = match &self.action {
                    Action::Focus(id) => Output::Focus(*id),
                    Action::Launch(cmd) => Output::Launch(cmd.clone()),
                };
                Some(out)
            },
            Input::SetFocused(focused) => {
                self.focused = focused;
                None
            },
            Input::SetTitle(t) => {
                self.title = t;
                None
            },
            Input::SetIcon(i) => {
                self.icon_name = i;
                None
            },
            Input::Update { icon_name, title } => {
                self.icon_name = icon_name;
                self.title = title;
                None
            },
        }
    }
}

} // verus!
