use crate::keyed::{entries_map, keys_distinct, lemma_insert_fresh, lemma_value_at};
use vstd::prelude::*;

verus! {

/// The Unicode lower-case form of `s`, as `str::to_lowercase` computes it.
pub uninterp spec fn lowercase(s: Seq<char>) -> Seq<char>;

/// Calls `str::to_lowercase`.
#[verifier::external_body]
fn str_to_lowercase(s: &str) -> (r: String)
    ensures
        r@ == lowercase(s@),
{
    s.to_lowercase()
}

/// The icon shown for a window that reports no application id.
pub open spec fn fallback_icon() -> Seq<char> {
    "application-x-executable-symbolic"@
}

/// The desktop-file ids looked up for `app_id`, in order: the id itself and
/// its lower-case form, each with `.desktop` appended.
pub open spec fn desktop_candidates(app_id: Seq<char>) -> Seq<Seq<char>> {
    seq![app_id + ".desktop"@, lowercase(app_id) + ".desktop"@]
}

pub open spec fn opt_string_view(o: Option<String>) -> Option<Seq<char>> {
    match o {
        Some(s) => Some(s@),
        None => None,
    }
}

/// `lookup`, called on a string that reads `desktop_id`, may answer `found`.
pub open spec fn lookup_answers<F: Fn(&str) -> Option<String>>(
    lookup: F,
    desktop_id: Seq<char>,
    found: Option<Seq<char>>,
) -> bool {
    exists|s: &str, out: Option<String>|
        #![trigger lookup.ensures((s,), out)]
        s@ == desktop_id && lookup.ensures((s,), out) && opt_string_view(out) == found
}

/// The icon name found by asking `lookup` about each of `cands` in turn:
/// the first answer that names an icon, or `app_id` when none did.
pub open spec fn first_answer<F: Fn(&str) -> Option<String>>(
    lookup: F,
    cands: Seq<Seq<char>>,
    app_id: Seq<char>,
    icon: Seq<char>,
) -> bool {
    ||| exists|k: int|
        0 <= k < cands.len() && (forall|j: int| 0 <= j < k ==> lookup_answers(lookup, #[trigger] cands[j], None))
            && #[trigger] lookup_answers(lookup, cands[k], Some(icon))
    ||| (forall|j: int| 0 <= j < cands.len() ==> lookup_answers(lookup, #[trigger] cands[j], None)) && icon == app_id
}

/// `icon` is what resolving the non-empty `app_id` through `lookup` gives:
/// the icon of the first candidate desktop file that names one, else the
/// application id itself.
pub open spec fn resolves<F: Fn(&str) -> Option<String>>(
    lookup: F,
    app_id: Seq<char>,
    icon: Seq<char>,
) -> bool {
    first_answer(lookup, desktop_candidates(app_id), app_id, icon)
}

/// Both desktop files are tried, in order: for a non-empty `app_id`, when
/// `lookup` can only answer `None` for `<app_id>.desktop` and can only name
/// the icon `n` for `<lowercase app_id>.desktop`, every icon that resolving
/// `app_id` may give is `n`; when it can only answer `None` for both, it is
/// `app_id` itself; when it can only name `n` for the first, it is `n`.
pub proof fn lemma_desktop_files_in_order<F: Fn(&str) -> Option<String>>(
    lookup: F,
    app_id: Seq<char>,
    icon: Seq<char>,
    n: Seq<char>,
)
    requires
        app_id.len() > 0,
        resolves(lookup, app_id, icon),
    ensures
        (forall|s: &str, out: Option<String>|
            s@ == app_id + ".desktop"@ && #[trigger] lookup.ensures((s,), out) ==> out is None) && (forall|
            s: &str,
            out: Option<String>,
        | s@ == lowercase(app_id) + ".desktop"@ && #[trigger] lookup.ensures((s,), out) ==> opt_string_view(out)
            == Some(n)) ==> icon == n,
        (forall|s: &str, out: Option<String>|
            (s@ == app_id + ".desktop"@ || s@ == lowercase(app_id) + ".desktop"@) && #[trigger] lookup.ensures(
                (s,),
                out,
            ) ==> out is None) ==> icon == app_id,
        (forall|s: &str, out: Option<String>|
            s@ == app_id + ".desktop"@ && #[trigger] lookup.ensures((s,), out) ==> opt_string_view(out) == Some(n))
            ==> icon == n,
{
    let cands = desktop_candidates(app_id);
    assert(cands[0] == app_id + ".desktop"@);
    assert(cands[1] == lowercase(app_id) + ".desktop"@);
}

/// Remembers the icon name resolved for each application id.
pub struct IconCache {
    entries: Vec<(String, String)>,
}

impl View for IconCache {
    type V = Map<Seq<char>, Seq<char>>;

    closed spec fn view(&self) -> Map<Seq<char>, Seq<char>> {
        entries_map(self.entries@)
    }
}

/// The icon shown for `app_id` once `cache` holds what was resolved: the
/// fallback icon for an empty id, the cached name otherwise.
pub open spec fn icon_for(cache: Map<Seq<char>, Seq<char>>, app_id: Seq<char>) -> Seq<char> {
    if app_id.len() == 0 {
        fallback_icon()
    } else {
        cache[app_id]
    }
}

impl IconCache {
    #[verifier::type_invariant]
    spec fn distinct_ids(&self) -> bool {
        &&& keys_distinct(self.entries@)
        &&& forall|i: int| 0 <= i < self.entries@.len() ==> (#[trigger] self.entries@[i]).0@.len() > 0
    }

    /// An empty cache.
    pub fn new() -> (c: Self)
        ensures
            c@ == Map::<Seq<char>, Seq<char>>::empty(),
    {
        let c = IconCache { entries: Vec::new() };
        assert(c@ =~= Map::<Seq<char>, Seq<char>>::empty());
        c
    }

    /// Forgets every resolved icon.
    pub fn clear(&mut self)
        ensures
            final(self)@ == Map::<Seq<char>, Seq<char>>::empty(),
    {
        self.entries = Vec::new();
        assert(self@ =~= Map::<Seq<char>, Seq<char>>::empty());
    }

    /// The icon cached for `app_id`, if any.
    pub fn get(&self, app_id: &str) -> (r: Option<String>)
        ensures
            r is Some <==> self@.contains_key(app_id@),
            r matches Some(v) ==> v@ == self@[app_id@],
    {
        proof {
            use_type_invariant(self);
        }
        let key = String::from_str(app_id);
        let mut i: usize = 0;
        while i < self.entries.len()
            invariant
                i <= self.entries@.len(),
                key@ == app_id@,
                keys_distinct(self.entries@),
                forall|j: int| 0 <= j < i ==> #[trigger] self.entries@[j].0@ != app_id@,
            decreases self.entries@.len() - i,
        {
            if self.entries[i].0 == key {
                proof {
                    lemma_value_at(self.entries@, i as int);
                }
                return Some(self.entries[i].1.clone());
            }
            i = i + 1;
        }
        None
    }

    /// The icon name for windows of `app_id`. A cached name is returned as
    /// it is; an empty id gets the fallback icon and is not cached; any other
    /// id is resolved through `lookup` (which maps a desktop-file id to the
    /// icon name that file gives, if any) and the result is cached.
    pub fn icon_name_for_app_id<F: Fn(&str) -> Option<String>>(&mut self, app_id: &str, lookup: &F) -> (r: String)
        requires
            forall|s: &str| #[trigger] lookup.requires((s,)),
        ensures
            old(self)@.contains_key(app_id@) ==> r@ == old(self)@[app_id@] && final(self)@ == old(self)@,
            !old(self)@.contains_key(app_id@) && app_id@.len() == 0 ==> r@ == fallback_icon() && final(self)@ == old(self)@,
            !old(self)@.contains_key(app_id@) && app_id@.len() > 0 ==> final(self)@ == old(self)@.insert(app_id@, r@)
                && resolves(*lookup, app_id@, r@),
            final(self)@.contains_key(app_id@) || app_id@.len() == 0,
            r@ == icon_for(final(self)@, app_id@),
    {
        proof {
            use_type_invariant(&*self);
        }
        if let Some(cached) = self.get(app_id) {
            proof {
                let i = choose|i: int| 0 <= i < self.entries@.len() && #[trigger] self.entries@[i].0@ == app_id@;
                assert(self.entries@[i].0@.len() > 0);
            }
            return cached;
        }
        if app_id.is_empty() {
            return String::from_str("application-x-executable-symbolic");
        }
        let candidates: Vec<String> = vec![
            String::from_str(app_id).concat(".desktop"),
            str_to_lowercase(app_id).concat(".desktop"),
        ];
        assert(candidates@.map_values(|c: String| c@) =~= desktop_candidates(app_id@));
        let mut resolved = String::from_str(app_id);
        let mut k: usize = 0;
        while k < candidates.len()
            invariant_except_break
                k <= candidates@.len(),
                forall|j: int| 0 <= j < k ==> lookup_answers(*lookup, #[trigger] desktop_candidates(app_id@)[j], None),
                resolved@ == app_id@,
            invariant
                candidates@.len() == 2,
                forall|j: int| 0 <= j < 2 ==> #[trigger] candidates@[j]@ == desktop_candidates(app_id@)[j],
                forall|s: &str| #[trigger] lookup.requires((s,)),
            ensures
                resolves(*lookup, app_id@, resolved@),
            decreases candidates@.len() - k,
        {
            let desktop_id = candidates[k].as_str();
            let found = lookup(desktop_id);
            match found {
                Some(name) => {
                    resolved = name;
                    proof {
                        assert(lookup.ensures((desktop_id,), found));
                        assert(opt_string_view(found) == Some(resolved@));
                        assert(lookup_answers(*lookup, desktop_candidates(app_id@)[k as int], Some(resolved@)));
                    }
                    break;
                },
                None => {
                    proof {
                        assert(lookup.ensures((desktop_id,), found));
                        assert(lookup_answers(*lookup, desktop_candidates(app_id@)[k as int], None));
                    }
                },
            }
            k = k + 1;
        }
        let entry = (String::from_str(app_id), resolved.clone());
        proof {
            lemma_insert_fresh(self.entries@, self.entries@.len() as int, entry);
            assert(self.entries@.insert(self.entries@.len() as int, entry) =~= self.entries@.push(entry));
        }
        let mut entries = Vec::new();
        std::mem::swap(&mut entries, &mut self.entries);
        entries.push(entry);
        assert(forall|i: int| 0 <= i < entries@.len() ==> (#[trigger] entries@[i]).0@.len() > 0);
        self.entries = entries;
        resolved
    }
}

} // verus!
