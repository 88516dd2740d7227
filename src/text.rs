use vstd::prelude::*;
use vstd::string::StrSliceExecFns;
use vstd::string::StringExecFns;

verus! {

/// Relies on `String::push`: appends `c` to the end of `s`.
#[verifier::external_body]
fn push_char(s: &mut String, c: char)
    ensures
        final(s)@ == old(s)@.push(c),
{
    s.push(c)
}

/// Number of characters in `text`.
pub fn char_count(text: &String) -> (r: usize)
    ensures
        r == text@.len(),
{
    text.as_str().unicode_len()
}

/// `text` with `c` inserted before the character at `pos`.
pub fn insert_char_at(text: &String, pos: usize, c: char) -> (r: String)
    requires
        pos <= text@.len(),
    ensures
        r@ == text@.take(pos as int).push(c) + text@.skip(pos as int),
{
    let s = text.as_str();
    let n = s.unicode_len();
    let mut r = String::from_str(s.substring_char(0, pos));
    push_char(&mut r, c);
    r.append(s.substring_char(pos, n));
    proof {
        assert(text@.subrange(0, pos as int) =~= text@.take(pos as int));
        assert(text@.subrange(pos as int, n as int) =~= text@.skip(pos as int));
    }
    r
}

/// `text` without the character just before `pos`.
pub fn remove_char_before(text: &String, pos: usize) -> (r: String)
    requires
        0 < pos <= text@.len(),
    ensures
        r@ == text@.take(pos - 1) + text@.skip(pos as int),
{
    let s = text.as_str();
    let n = s.unicode_len();
    let mut r = String::from_str(s.substring_char(0, pos - 1));
    r.append(s.substring_char(pos, n));
    proof {
        assert(text@.subrange(0, pos - 1) =~= text@.take(pos - 1));
        assert(text@.subrange(pos as int, n as int) =~= text@.skip(pos as int));
    }
    r
}

} // verus!
