use vstd::prelude::*;

verus! {

/// `base` joined with `rel` as a Unix path: an absolute `rel` stands alone,
/// otherwise a `/` separates them unless `base` is empty or already ends
/// with one.
pub open spec fn joined(base: Seq<char>, rel: Seq<char>) -> Seq<char> {
    if rel.len() > 0 && rel[0] == '/' {
        rel
    } else if base.len() > 0 && base.last() != '/' {
        base + seq!['/'] + rel
    } else {
        base + rel
    }
}

/// Joins the path `rel` onto `base`.
pub fn join_path(base: &str, rel: &str) -> (p: String)
    ensures
        p@ == joined(base@, rel@),
{
    let rlen = rel.unicode_len();
    if rlen > 0 && rel.get_char(0) == '/' {
        return String::from_str(rel);
    }
    let blen = base.unicode_len();
    let mut p = String::from_str(base);
    if blen > 0 && base.get_char(blen - 1) != '/' {
        p.append("/");
        proof {
            reveal_strlit("/");
            assert("/"@ =~= seq!['/']);
        }
    }
    p.append(rel);
    p
}

/// The dock's configuration directory, given the values of
/// `XDG_CONFIG_HOME` and `HOME` (each `None` when unset or not Unicode):
/// `$XDG_CONFIG_HOME/dock`, else `$HOME/.config/dock`, else none.
pub fn dir(xdg_config_home: Option<String>, home: Option<String>) -> (d: Option<String>)
    ensures
        match xdg_config_home {
            Some(x) => d matches Some(p) && p@ == joined(x@, "dock"@),
            None => match home {
                Some(h) => d matches Some(p) && p@ == joined(h@, ".config/dock"@),
                None => d is None,
            },
        },
{
    if let Some(x) = xdg_config_home {
        Some(join_path(x.as_str(), "dock"))
    } else if let Some(h) = home {
        Some(join_path(h.as_str(), ".config/dock"))
    } else {
        None
    }
}

} // verus!
