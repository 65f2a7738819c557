//! Function names: the identifier that an operation's files are named by.

use crate::text::replaced;
use vstd::prelude::*;
use vstd::string::*;

verus! {

/// Whether `c` is an ASCII letter or digit.
pub open spec fn is_alnum(c: char) -> bool {
    ('a' <= c && c <= 'z') || ('A' <= c && c <= 'Z') || ('0' <= c && c <= '9')
}

/// What the character at `i` contributes when runs are replaced: itself if it
/// is a letter or digit, `rep` if it opens a run of other characters, and
/// nothing inside such a run.
pub open spec fn run_piece(s: Seq<char>, i: int, rep: Seq<char>) -> Seq<char> {
    if is_alnum(s[i]) {
        seq![s[i]]
    } else if i > 0 && !is_alnum(s[i - 1]) {
        Seq::empty()
    } else {
        rep
    }
}

/// `s` with every maximal run of characters that are neither ASCII letters
/// nor digits replaced by `rep`.
pub open spec fn runs_replaced(s: Seq<char>, rep: Seq<char>) -> Seq<char>
    decreases s.len(),
{
    if s.len() == 0 {
        s
    } else {
        runs_replaced(s.drop_last(), rep) + run_piece(s, s.len() - 1, rep)
    }
}

/// The pattern that matches one slash.
pub open spec fn slash_pattern() -> Seq<char> {
    seq!['/']
}

/// The pattern that matches a run of characters other than ASCII letters and
/// digits.
pub open spec fn run_pattern() -> Seq<char> {
    seq!['[', '^', 'A', '-', 'Z', 'a', '-', 'z', '0', '-', '9', ']', '+']
}

/// The name of the function that serves `method` on `path`: the two joined,
/// the slashes deleted, and every run of other punctuation turned into one
/// hyphen.
pub open spec fn function_name(path: Seq<char>, method: Seq<char>) -> Seq<char> {
    runs_replaced(replaced(path + method, slash_pattern(), Seq::empty()), seq!['-'])
}

/// `Regex::new(pattern)` and `Regex::replace_all(text, rep)` of the regex
/// crate, for the two patterns that this library uses. Both compile. Matches
/// are found from the left and do not overlap, a `+` takes as many characters
/// as it can, and a replacement without `$` is put in as it stands: so the
/// slash pattern replaces each slash, and the run pattern each maximal run of
/// characters outside `A-Z`, `a-z` and `0-9`.
#[verifier::external_body]
fn regex_replace_all(pattern: &str, text: &str, rep: &str) -> (out: String)
    requires
        pattern@ == slash_pattern() || pattern@ == run_pattern(),
        !rep@.contains('$'),
    ensures
        pattern@ == slash_pattern() ==> out@ == replaced(text@, slash_pattern(), rep@),
        pattern@ == run_pattern() ==> out@ == runs_replaced(text@, rep@),
{
    regex::Regex::new(pattern).unwrap().replace_all(text, rep).into_owned()
}

/// Derives the function name of an operation from its path and method.
pub fn resolve(path: &str, method: &str) -> (name: String)
    ensures
        name@ == function_name(path@, method@),
        is_plain_name(name@),
{
    proof {
        law_name_is_plain(path@, method@);
    }
    let mut joined = path.to_owned();
    joined.append(method);
    proof {
        reveal_strlit("/");
        reveal_strlit("[^A-Za-z0-9]+");
        reveal_strlit("");
        reveal_strlit("-");
        assert("/"@ =~= slash_pattern());
        assert("[^A-Za-z0-9]+"@ =~= run_pattern());
        assert(""@ =~= Seq::<char>::empty());
        assert("-"@ =~= seq!['-']);
    }
    let bare = regex_replace_all("/", joined.as_str(), "");
    regex_replace_all("[^A-Za-z0-9]+", bare.as_str(), "-")
}

/// Whether a text holds ASCII letters, digits and hyphens only, and no two
/// hyphens side by side.
pub open spec fn is_plain_name(name: Seq<char>) -> bool {
    &&& forall|i: int| 0 <= i < name.len() ==> is_alnum(#[trigger] name[i]) || name[i] == '-'
    &&& forall|i: int| 0 < i < name.len() ==> !(name[i - 1] == '-' && #[trigger] name[i] == '-')
}

/// What replacing runs by a hyphen yields: a plain name that ends as `s`
/// does, in the same letter or digit, or else in a hyphen.
proof fn lemma_runs_are_plain(s: Seq<char>)
    ensures
        is_plain_name(runs_replaced(s, seq!['-'])),
        s.len() > 0 ==> runs_replaced(s, seq!['-']).len() > 0,
        s.len() > 0 && is_alnum(s.last()) ==> runs_replaced(s, seq!['-']).last() == s.last(),
        s.len() > 0 && !is_alnum(s.last()) ==> runs_replaced(s, seq!['-']).last() == '-',
    decreases s.len(),
{
    if s.len() > 0 {
        let before = s.drop_last();
        lemma_runs_are_plain(before);
        let made = runs_replaced(before, seq!['-']);
        let piece = run_piece(s, s.len() - 1, seq!['-']);
        assert(runs_replaced(s, seq!['-']) == made + piece);
        if before.len() > 0 {
            assert(before.last() == s[s.len() - 2]);
        }
    }
}

/// A function name holds ASCII letters, digits and hyphens only, no two
/// hyphens side by side, and so no slash.
pub proof fn law_name_is_plain(path: Seq<char>, method: Seq<char>)
    ensures
        is_plain_name(function_name(path, method)),
        !function_name(path, method).contains('/'),
{
    let name = function_name(path, method);
    lemma_runs_are_plain(replaced(path + method, slash_pattern(), Seq::empty()));
    if name.contains('/') {
        let i = choose|i: int| 0 <= i < name.len() && name[i] == '/';
        assert(is_alnum(name[i]) || name[i] == '-');
    }
}

} // verus!
