//! The layout of the content-addressed object store: an object lives in the
//! directory named by the first two bytes of its hash, under the rest.
use vstd::prelude::*;
use vstd::string::StringSliceAdditionalSpecFns;
use crate::path::{is_absolute, join_path, joined, SEPARATOR};

verus! {

/// The number of bytes of a hash that name its directory.
pub const PREFIX_BYTES: usize = 2;

/// The shortest hash that names an object.
pub const MIN_HASH_BYTES: usize = 3;

/// The directory and the file name of the object with hash `hash`, if the
/// hash is long enough to name one (three bytes or more).
pub fn object_key(hash: &str) -> (r: Option<(String, String)>)
    requires
        vstd::utf8::encode_utf8(hash@).len() < MIN_HASH_BYTES || vstd::utf8::is_char_boundary(
            vstd::utf8::encode_utf8(hash@),
            PREFIX_BYTES as int,
        ),
    ensures
        r is Some <==> vstd::utf8::encode_utf8(hash@).len() >= MIN_HASH_BYTES,
        match r {
            Some((dir, file)) => {
                &&& vstd::utf8::encode_utf8(dir@) == vstd::utf8::encode_utf8(hash@).take(PREFIX_BYTES as int)
                &&& vstd::utf8::encode_utf8(file@) == vstd::utf8::encode_utf8(hash@).skip(PREFIX_BYTES as int)
            },
            None => true,
        },
{
    proof {
        assert(hash.spec_bytes() == vstd::utf8::encode_utf8(hash@));
        vstd::utf8::encode_utf8_valid_utf8(hash@);
    }
    let n = hash.as_bytes().len();
    if n < MIN_HASH_BYTES {
        return None;
    }
    let (dir, file) = hash.split_at(PREFIX_BYTES);
    proof {
        assert(dir.spec_bytes() == vstd::utf8::encode_utf8(dir@));
        assert(file.spec_bytes() == vstd::utf8::encode_utf8(file@));
        assert(vstd::utf8::encode_utf8(hash@).take(PREFIX_BYTES as int) =~= vstd::utf8::encode_utf8(hash@).subrange(0, 2));
        assert(vstd::utf8::encode_utf8(hash@).skip(PREFIX_BYTES as int) =~= vstd::utf8::encode_utf8(hash@).subrange(
            2,
            vstd::utf8::encode_utf8(hash@).len() as int,
        ));
    }
    Some((dir.to_owned(), file.to_owned()))
}

/// The directory under the root of the store that holds the objects.
pub const OBJECTS_DIR: &'static str = "objects";

/// The path of the object whose hash's first two bytes spell `dir` and the
/// rest `file`, in the store rooted at `root`.
pub open spec fn object_path(root: Seq<char>, dir: Seq<char>, file: Seq<char>) -> Seq<char> {
    joined(joined(joined(root, OBJECTS_DIR@), dir), file)
}

/// Whether `dir` and `file` are the two parts of `hash`: its first two
/// bytes and the rest.
pub open spec fn splits_hash(hash: Seq<char>, dir: Seq<char>, file: Seq<char>) -> bool {
    &&& vstd::utf8::encode_utf8(dir) == vstd::utf8::encode_utf8(hash).take(PREFIX_BYTES as int)
    &&& vstd::utf8::encode_utf8(file) == vstd::utf8::encode_utf8(hash).skip(PREFIX_BYTES as int)
}

/// The content-addressed store of objects under a root directory.
#[derive(Debug, Clone)]
pub struct StorageManager {
    storage_root: String,
}

impl StorageManager {
    /// The root directory of the store.
    pub closed spec fn root(&self) -> Seq<char> {
        self.storage_root@
    }

    /// A store rooted at `storage_root`.
    pub fn new(storage_root: &str) -> (r: Self)
        ensures
            r.root() == storage_root@,
    {
        StorageManager { storage_root: storage_root.to_owned() }
    }

    /// The root directory of the store.
    pub fn storage_root(&self) -> (r: &str)
        ensures
            r@ == self.root(),
    {
        self.storage_root.as_str()
    }

    /// The path of the object with hash `hash`: the directory named by its
    /// first two bytes, under `objects/`, then the rest; `None` for a hash
    /// shorter than three bytes.
    pub fn get_path(&self, hash: &str) -> (r: Option<String>)
        requires
            vstd::utf8::encode_utf8(hash@).len() < MIN_HASH_BYTES || vstd::utf8::is_char_boundary(
                vstd::utf8::encode_utf8(hash@),
                PREFIX_BYTES as int,
            ),
        ensures
            r is Some <==> vstd::utf8::encode_utf8(hash@).len() >= MIN_HASH_BYTES,
            match r {
                Some(p) => exists|dir: Seq<char>, file: Seq<char>|
                    #![trigger object_path(self.root(), dir, file)]
                    splits_hash(hash@, dir, file) && p@ == object_path(self.root(), dir, file),
                None => true,
            },
    {
        match object_key(hash) {
            Some((dir, file)) => {
                let objects = join_path(self.storage_root.as_str(), OBJECTS_DIR);
                let in_dir = join_path(objects.as_str(), dir.as_str());
                let p = join_path(in_dir.as_str(), file.as_str());
                proof {
                    assert(splits_hash(hash@, dir@, file@));
                    assert(p@ == object_path(self.root(), dir@, file@));
                }
                Some(p)
            },
            None => None,
        }
    }
}

/// Where a store rooted at `root` keeps an object: under `objects/`, in the
/// directory named by the first two bytes of its hash, under the rest. This
/// holds for a root that does not end in a separator and for hash parts that
/// do not start at a root, as hexadecimal digests do not.
pub proof fn object_path_under_root(root: Seq<char>, dir: Seq<char>, file: Seq<char>)
    requires
        root.len() > 0,
        root.last() != SEPARATOR,
        dir.len() > 0,
        !is_absolute(dir),
        dir.last() != SEPARATOR,
        !is_absolute(file),
    ensures
        object_path(root, dir, file) == root + seq![SEPARATOR] + OBJECTS_DIR@ + seq![SEPARATOR] + dir + seq![
            SEPARATOR,
        ] + file,
{
    reveal_strlit("objects");
    let objects = joined(root, OBJECTS_DIR@);
    assert(objects == root + seq![SEPARATOR] + OBJECTS_DIR@);
    assert(objects.last() == 's');
    let in_dir = joined(objects, dir);
    assert(in_dir == objects + seq![SEPARATOR] + dir);
    assert(in_dir.last() == dir.last());
    assert(object_path(root, dir, file) =~= root + seq![SEPARATOR] + OBJECTS_DIR@ + seq![SEPARATOR] + dir + seq![
        SEPARATOR,
    ] + file);
}

} // verus!
