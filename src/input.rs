//! Reading what the player typed: trimming, the `quit` command, and the
//! single-character check.
use vstd::prelude::*;
use vstd::string::StrSliceExecFns;

verus! {

/// The text of the command that ends a session early.
pub open spec fn quit_command() -> Seq<char> {
    seq!['q', 'u', 'i', 't']
}

/// What `str::trim` leaves of a line: the line without its leading and
/// trailing whitespace.
pub uninterp spec fn trimmed(s: Seq<char>) -> Seq<char>;

/// Relies on `str::trim`: the result is the line with leading and trailing
/// whitespace removed.
#[verifier::external_body]
fn trim_line(line: &str) -> (r: &str)
    ensures
        r@ == trimmed(line@),
{
    line.trim()
}

/// Strips leading and trailing whitespace (line terminators included).
pub fn normalize(line: &str) -> (r: &str)
    ensures
        r@ == trimmed(line@),
{
    trim_line(line)
}

/// True when the text is exactly one Unicode scalar value.
pub fn is_single_code_point(s: &str) -> (r: bool)
    ensures
        r == (s@.len() == 1),
{
    s.unicode_len() == 1
}

/// True when the text is the `quit` command.
pub fn is_quit(s: &str) -> (r: bool)
    ensures
        r == (s@ == quit_command()),
{
    let n = s.unicode_len();
    if n != 4 {
        return false;
    }
    let r = s.get_char(0) == 'q' && s.get_char(1) == 'u' && s.get_char(2) == 'i'
        && s.get_char(3) == 't';
    proof {
        if r {
            assert(s@ =~= quit_command());
        } else {
            assert(s@ != quit_command()) by {
                if s@ == quit_command() {
                    assert(s@[0] == 'q' && s@[1] == 'u' && s@[2] == 'i' && s@[3] == 't');
                }
            }
        }
    }
    r
}

} // verus!
