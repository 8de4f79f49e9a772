//! Text and paths. A path is a text whose parts are parted by `/`.

use vstd::prelude::*;
use vstd::slice::slice_to_vec;
use vstd::string::StrSliceExecFns;
use vstd::string::StringExecFns;
use vstd::utf8::{decode_utf8, valid_utf8};

verus! {

/// The text that `String::from_utf8_lossy` makes of bytes that are no valid UTF-8.
pub uninterp spec fn lossy_utf8(bytes: Seq<u8>) -> Seq<char>;

/// `String::from_utf8`: the text whose UTF-8 encoding the bytes are, or nothing where they are
/// no valid UTF-8.
#[verifier::external_body]
pub(crate) fn utf8_text(bytes: Vec<u8>) -> (res: Option<String>)
    ensures
        res is Some <==> valid_utf8(bytes@),
        res matches Some(s) ==> s@ == decode_utf8(bytes@),
{
    String::from_utf8(bytes).ok()
}

/// `String::from_utf8_lossy`: the text that valid UTF-8 bytes encode. Of other bytes it makes a
/// text that depends on them alone; how it replaces them is not stated here.
#[verifier::external_body]
pub(crate) fn lossy_text(bytes: &[u8]) -> (res: String)
    ensures
        valid_utf8(bytes@) ==> res@ == decode_utf8(bytes@),
        !valid_utf8(bytes@) ==> res@ == lossy_utf8(bytes@),
{
    String::from_utf8_lossy(bytes).into_owned()
}

/// The text that bytes are taken for, valid UTF-8 or not.
pub open spec fn name_text(bytes: Seq<u8>) -> Seq<char> {
    if valid_utf8(bytes) {
        decode_utf8(bytes)
    } else {
        lossy_utf8(bytes)
    }
}

/// The text of bytes that may come from anywhere, such as a file name: `None` where they are no
/// valid UTF-8.
pub fn text_of(bytes: &[u8]) -> (res: Option<String>)
    ensures
        res is Some <==> valid_utf8(bytes@),
        res matches Some(s) ==> s@ == decode_utf8(bytes@),
{
    utf8_text(slice_to_vec(bytes))
}

/// A path without its leading slashes.
pub open spec fn without_root(path: Seq<char>) -> Seq<char>
    decreases path.len(),
{
    if path.len() > 0 && path[0] == '/' {
        without_root(path.drop_first())
    } else {
        path
    }
}

/// The name `name` below the directory `parent`.
pub open spec fn child(parent: Seq<char>, name: Seq<char>) -> Seq<char> {
    if parent == seq!['/'] {
        seq!['/'] + name
    } else {
        parent + seq!['/'] + name
    }
}

/// The place below `root` that `path` stands for.
pub open spec fn below(root: Seq<char>, path: Seq<char>) -> Seq<char> {
    if root.len() == 0 || root.last() == '/' {
        root + without_root(path)
    } else {
        root + seq!['/'] + without_root(path)
    }
}

/// Drops every leading slash.
pub fn relative_path(path: &str) -> (res: &str)
    ensures
        res@ == without_root(path@),
{
    let n: usize = path.unicode_len();
    let mut k: usize = 0;
    assert(path@.skip(0) =~= path@);
    while k < n && path.get_char(k) == '/'
        invariant
            k <= n == path@.len(),
            without_root(path@.skip(k as int)) == without_root(path@),
        ensures
            k <= n == path@.len(),
            without_root(path@.skip(k as int)) == without_root(path@),
            k < n ==> path@[k as int] != '/',
        decreases n - k,
    {
        assert(path@.skip(k as int).drop_first() =~= path@.skip(k + 1));
        k += 1;
    }
    let res = path.substring_char(k, n);
    assert(res@ =~= path@.skip(k as int));
    res
}

/// The file below `root` that `path` names. A leading slash of `path` means `root` itself.
pub fn local_path(root: &str, path: &str) -> (res: String)
    ensures
        res@ == below(root@, path@),
{
    let mut res = root.to_owned();
    let n: usize = root.unicode_len();
    if n > 0 && root.get_char(n - 1) != '/' {
        proof {
            reveal_strlit("/");
        }
        res.append("/");
        assert("/"@ =~= seq!['/']);
    }
    res.append(relative_path(path));
    res
}

/// The path of the entry `name` of the directory `parent`.
pub fn child_path(parent: &str, name: &str) -> (res: String)
    ensures
        res@ == child(parent@, name@),
{
    let mut res = parent.to_owned();
    let root = parent.unicode_len() == 1 && parent.get_char(0) == '/';
    assert(root ==> parent@ =~= seq!['/']);
    if !root {
        proof {
            reveal_strlit("/");
        }
        res.append("/");
        assert("/"@ =~= seq!['/']);
    }
    res.append(name);
    res
}

} // verus!
