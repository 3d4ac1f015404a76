use vstd::prelude::*;
use vstd::string::StringExecFns;

verus! {

/// Whether a path has to be quoted to be typed: it does where it has a space in it, or is not
/// Unicode at all.
pub open spec fn needs_quotes(path: Option<Seq<char>>) -> bool {
    path matches Some(p) ==> p.contains(' ')
}

/// A path that is Unicode is quoted exactly where one of its characters is a space; one that is
/// not always is.
pub proof fn law_quotes_follow_spaces(path: Seq<char>)
    ensures
        needs_quotes(None),
        needs_quotes(Some(path)) <==> exists|i: int| 0 <= i < path.len() && #[trigger] path[i] as int
            == 32,
{
    if needs_quotes(Some(path)) {
        let i = choose|i: int| 0 <= i < path.len() && path[i] == ' ';
        assert(path[i] as int == 32);
    }
}

fn has_space(path: &str) -> (r: bool)
    ensures
        r == path@.contains(' '),
{
    for c in it: path.chars()
        invariant
            it.seq() == path@,
            forall|i: int| 0 <= i < it.index() ==> path@[i] != ' ',
    {
        if c == ' ' {
            assert(path@[it.index() as int] == ' ');
            return true;
        }
    }
    false
}

/// How the program at `path` is used; `shown` is the path as it is printed.
pub fn usage(path: Option<&str>, shown: &str) -> (r: String)
    ensures
        r@ == if needs_quotes(
            match path {
                Some(p) => Some(p@),
                None => None,
            },
        ) {
            "Usage: \""@ + shown@ + "\" <configfile>"@
        } else {
            "Usage: "@ + shown@ + " <configfile>"@
        },
{
    let quoted: bool = match path {
        Some(p) => has_space(p),
        None => true,
    };
    let (before, after): (&str, &str) = if quoted {
        ("Usage: \"", "\" <configfile>")
    } else {
        ("Usage: ", " <configfile>")
    };
    let mut line: String = before.to_string();
    line.append(shown);
    line.append(after);
    line
}

/// The line on how a program is used shows its path as it is printed, between quotes exactly where
/// the path has a space in it or is not Unicode.
pub proof fn law_usage_shows_the_path(path: Option<&str>, shown: &str, r: String)
    requires
        call_ensures(usage, (path, shown), r),
    ensures
        ({
            let quoted = path matches Some(p) ==> exists|i: int|
                0 <= i < p@.len() && #[trigger] p@[i] as int == 32;
            let from = if quoted {
                8int
            } else {
                7
            };
            let to = from + shown@.len();
            &&& r@.subrange(from, to) == shown@
            &&& quoted ==> r@.take(from) == "Usage: \""@ && r@.skip(to) == "\" <configfile>"@
            &&& !quoted ==> r@.take(from) == "Usage: "@ && r@.skip(to) == " <configfile>"@
        }),
{
    reveal_strlit("Usage: \"");
    reveal_strlit("Usage: ");
    if let Some(p) = path {
        law_quotes_follow_spaces(p@);
    }
    let quoted = path matches Some(p) ==> exists|i: int|
        0 <= i < p@.len() && #[trigger] p@[i] as int == 32;
    if quoted {
        assert(r@ == "Usage: \""@ + shown@ + "\" <configfile>"@);
    } else {
        assert(r@ == "Usage: "@ + shown@ + " <configfile>"@);
    }
}

} // verus!
