//! What holds of paths as a whole.

use vstd::prelude::*;
use vstd::utf8::{
    encode_utf8, encode_utf8_decode_utf8, encode_utf8_valid_utf8, valid_utf8,
};

use crate::text::{below, child, lossy_utf8, name_text, without_root};

verus! {

/// The encoding of a text is taken for that text: nothing is replaced in it.
pub proof fn law_valid_name_is_kept(text: Seq<char>)
    ensures
        name_text(encode_utf8(text)) == text,
{
    encode_utf8_valid_utf8(text);
    encode_utf8_decode_utf8(text);
}

/// A path without its leading slashes has none.
pub proof fn law_no_slash_leads(path: Seq<char>)
    ensures
        without_root(path).len() > 0 ==> without_root(path)[0] != '/',
    decreases path.len(),
{
    if path.len() > 0 && path[0] == '/' {
        law_no_slash_leads(path.drop_first());
    }
}

/// Leading slashes do not matter: an absolute path names the same file below the root as the path
/// without the slash.
pub proof fn law_leading_slash_does_not_matter(root: Seq<char>, path: Seq<char>)
    ensures
        below(root, seq!['/'] + path) == below(root, path),
{
    assert((seq!['/'] + path).drop_first() =~= path);
}

/// A path is always taken from the root on, absolute or not.
pub proof fn law_path_starts_at_the_root(root: Seq<char>, path: Seq<char>)
    ensures
        below(root, path).len() >= root.len(),
        below(root, path).take(root.len() as int) == root,
{
    assert(below(root, path).take(root.len() as int) =~= root);
}

/// Two entries of a directory with different names have different paths.
pub proof fn law_children_are_distinct(parent: Seq<char>, name1: Seq<char>, name2: Seq<char>)
    requires
        name1 != name2,
    ensures
        child(parent, name1) != child(parent, name2),
{
    let front = if parent == seq!['/'] {
        seq!['/']
    } else {
        parent + seq!['/']
    };
    assert(child(parent, name1).skip(front.len() as int) =~= name1);
    assert(child(parent, name2).skip(front.len() as int) =~= name2);
}

/// Nothing but leading slashes is dropped from a path.
pub proof fn law_only_slashes_are_dropped(path: Seq<char>)
    ensures
        ({
            let k = path.len() - without_root(path).len();
            &&& 0 <= k <= path.len()
            &&& path.skip(k) == without_root(path)
            &&& forall|i: int| 0 <= i < k ==> #[trigger] path[i] == '/'
        }),
    decreases path.len(),
{
    if path.len() > 0 && path[0] == '/' {
        let tail = path.drop_first();
        law_only_slashes_are_dropped(tail);
        let k = path.len() - without_root(path).len();
        assert(tail.skip(k - 1) =~= path.skip(k));
        assert forall|i: int| 0 <= i < k implies #[trigger] path[i] == '/' by {
            if i > 0 {
                assert(tail[i - 1] == '/');
            }
        }
    } else {
        assert(path.skip(0) =~= path);
    }
}

/// The path of a directory entry is the directory, a slash, and the name, each whole; below the
/// root directory it is the slash and the name.
pub proof fn law_child_is_below_its_parent(parent: Seq<char>, name: Seq<char>)
    ensures
        ({
            let path = child(parent, name);
            let n = if parent.len() == 1 && parent[0] == '/' {
                0
            } else {
                parent.len() as int
            };
            &&& path.len() == n + 1 + name.len()
            &&& path.take(n) == parent.take(n)
            &&& path[n] == '/'
            &&& path.skip(n + 1) == name
        }),
{
    let path = child(parent, name);
    assert(parent.len() == 1 && parent[0] == '/' <==> parent =~= seq!['/']);
    let n = if parent.len() == 1 && parent[0] == '/' {
        0
    } else {
        parent.len() as int
    };
    assert(path.take(n) =~= parent.take(n));
    assert(path.skip(n + 1) =~= name);
}

/// A file below the root is the root, a slash unless there is one or the root is empty, and the
/// path without its leading slashes, each whole.
pub proof fn law_file_is_below_the_root(root: Seq<char>, path: Seq<char>)
    ensures
        ({
            let file = below(root, path);
            let slash = root.len() > 0 && root.last() != '/';
            let n = if slash {
                root.len() as int + 1
            } else {
                root.len() as int
            };
            &&& file.len() == n + without_root(path).len()
            &&& file.take(root.len() as int) == root
            &&& slash ==> file[root.len() as int] == '/'
            &&& file.skip(n) == without_root(path)
        }),
{
    let file = below(root, path);
    let slash = root.len() > 0 && root.last() != '/';
    let n = if slash {
        root.len() as int + 1
    } else {
        root.len() as int
    };
    assert(file.take(root.len() as int) =~= root);
    assert(file.skip(n) =~= without_root(path));
}

/// Bytes that are no valid UTF-8 are taken for the text that replacing gives.
pub proof fn law_invalid_name_is_replaced(bytes: Seq<u8>)
    requires
        !valid_utf8(bytes),
    ensures
        name_text(bytes) == lossy_utf8(bytes),
{
}

} // verus!
