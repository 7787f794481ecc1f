//! The pure part of the template-callable diagnostic functions: when a
//! conditional `warn` or `fail` fires, the lines they produce, and the size
//! guard applied before a file is read into memory.

use vstd::prelude::*;

verus! {

/// The largest file size, in bytes, that may be read into memory.
pub const MAX_FILE_BYTES: u64 = 5000000;

pub open spec fn warn_prefix() -> Seq<char> {
    seq!['w', 'a', 'r', 'n', 'i', 'n', 'g', ':', ' ']
}

pub open spec fn fail_prefix() -> Seq<char> {
    seq!['f', 'a', 'i', 'l', ':', ' ']
}

/// A diagnostic with an optional condition fires when the condition is
/// absent or true.
pub fn diagnostic_fires(cond: Option<bool>) -> (res: bool)
    ensures
        res == (cond is None || cond == Some(true)),
{
    match cond {
        None => true,
        Some(c) => c,
    }
}

/// The line a firing `warn` writes to the error stream.
pub fn warn_line(msg: &str) -> (res: String)
    ensures
        res@ == warn_prefix() + msg@,
{
    let mut out = "warning: ".to_owned();
    out.append(msg);
    proof {
        reveal_strlit("warning: ");
        assert(out@ =~= warn_prefix() + msg@);
    }
    out
}

/// The template-callable `fail`: when the condition is absent or true, the
/// render aborts with a message carrying the given text; otherwise the call
/// contributes the empty string.
pub fn fail(msg: &str, cond: Option<bool>) -> (res: Result<String, String>)
    ensures
        res is Err <==> cond is None || cond == Some(true),
        match res {
            Err(m) => m@ == fail_prefix() + msg@,
            Ok(s) => s@ == Seq::<char>::empty(),
        },
{
    if diagnostic_fires(cond) {
        let mut m = "fail: ".to_owned();
        m.append(msg);
        proof {
            reveal_strlit("fail: ");
            assert(m@ =~= fail_prefix() + msg@);
        }
        Err(m)
    } else {
        let empty = "".to_owned();
        proof {
            reveal_strlit("");
            assert(empty@ =~= Seq::<char>::empty());
        }
        Ok(empty)
    }
}

/// Whether a file of the given size may be read into memory.
pub fn within_size_cap(len: u64) -> (res: bool)
    ensures
        res == (len <= MAX_FILE_BYTES),
{
    len <= MAX_FILE_BYTES
}

} // verus!
