//! Where objects live on disk: a root directory, a `tmp` directory for uploads
//! in progress, and `objects/aa/bb/<cid>` for a stored object, partitioned by
//! the first four bytes of its content identifier.

use vstd::prelude::*;
use vstd::utf8::*;
use vstd::string::StringExecFns;
use crate::content::{push_char, is_content_id, is_lower_hex_char};

verus! {

/// The first character of a string, if any.
fn first_char(s: &str) -> (r: Option<char>)
    ensures
        r == if s@.len() > 0 { Some(s@[0]) } else { None::<char> },
{
    broadcast use vstd::string::axiom_spec_iter, vstd::string::next_postcondition;

    let mut it = s.chars();
    it.next()
}

/// The last character of a string, if any.
fn last_char(s: &str) -> (r: Option<char>)
    ensures
        r == if s@.len() > 0 { Some(s@.last()) } else { None::<char> },
{
    broadcast use vstd::string::axiom_spec_iter, vstd::string::next_postcondition;

    let mut last: Option<char> = None;
    for c in it: s.chars()
        invariant
            it.seq() == s@,
            last == if it.index() > 0 { Some(s@[it.index() - 1]) } else { None::<char> },
    {
        last = Some(c);
    }
    last
}

/// `std::path::Path::exists`: whether something is found at `path` on disk.
/// Nothing is claimed of the result: it depends on the file system.
#[verifier::external_body]
fn path_exists(path: &str) -> bool {
    std::path::Path::new(path).exists()
}

/// `Path::join` on a Unix path held as text: a segment that starts at the
/// root replaces the base; otherwise the segment follows the base, after a
/// `/` unless the base is empty or already ends with one.
#[verifier::opaque]
pub open spec fn path_join(base: Seq<char>, seg: Seq<char>) -> Seq<char> {
    if seg.len() > 0 && seg[0] == '/' {
        seg
    } else if base.len() == 0 || base.last() == '/' {
        base + seg
    } else {
        base.push('/') + seg
    }
}

/// Joins `seg` onto the path `base`, as `Path::join` does on Unix.
pub fn join_path(base: &str, seg: &str) -> (p: String)
    ensures
        p@ == path_join(base@, seg@),
{
    reveal(path_join);
    if first_char(seg) == Some('/') {
        seg.to_owned()
    } else {
        let mut p = base.to_owned();
        if !base.is_empty() && last_char(base) != Some('/') {
            push_char(&mut p, '/');
        }
        p.append(seg);
        p
    }
}

pub open spec fn objects_segment() -> Seq<char> {
    seq!['o', 'b', 'j', 'e', 'c', 't', 's']
}

pub open spec fn tmp_segment() -> Seq<char> {
    seq!['t', 'm', 'p']
}

/// A content identifier can be partitioned when its UTF-8 bytes can be cut
/// after the second byte and, in what follows, again after the second byte,
/// both at character boundaries (else cutting it panics).
pub open spec fn is_partitionable_cid(cid: Seq<char>) -> bool {
    let b = encode_utf8(cid);
    &&& is_char_boundary(b, 2)
    &&& is_char_boundary(b.subrange(2, b.len() as int), 2)
}

/// The first-level directory of a content identifier: its first two bytes.
pub open spec fn cid_level1(cid: Seq<char>) -> Seq<char> {
    decode_utf8(encode_utf8(cid).subrange(0, 2))
}

/// The second-level directory of a content identifier: its third and fourth bytes.
pub open spec fn cid_level2(cid: Seq<char>) -> Seq<char> {
    decode_utf8(encode_utf8(cid).subrange(2, 4))
}

/// `root/objects/<level 1>/<level 2>/<cid>`.
pub open spec fn spec_path_for_cid(root: Seq<char>, cid: Seq<char>) -> Seq<char> {
    path_join(
        path_join(path_join(path_join(root, objects_segment()), cid_level1(cid)), cid_level2(cid)),
        cid,
    )
}

proof fn lemma_cid_parts(cid: Seq<char>, a: Seq<char>, rest: Seq<char>, b: Seq<char>)
    requires
        is_partitionable_cid(cid),
        encode_utf8(a) =~= encode_utf8(cid).subrange(0, 2),
        encode_utf8(rest) =~= encode_utf8(cid).subrange(2, encode_utf8(cid).len() as int),
        encode_utf8(b) =~= encode_utf8(rest).subrange(0, 2),
    ensures
        a == cid_level1(cid),
        b == cid_level2(cid),
{
    let bytes = encode_utf8(cid);
    let rb = encode_utf8(rest);
    encode_utf8_valid_utf8(cid);
    encode_utf8_valid_utf8(rest);
    assert(bytes.len() >= 2);
    assert(rb.len() >= 2);
    assert(bytes.len() >= 4);
    assert(encode_utf8(b) =~= bytes.subrange(2, 4));
    encode_utf8_decode_utf8(a);
    encode_utf8_decode_utf8(b);
}

/// Whether `cid` can be partitioned into the two directory levels.
pub fn is_partitionable(cid: &str) -> (r: bool)
    ensures
        r == is_partitionable_cid(cid@),
{
    if cid.is_char_boundary(2) {
        let (_, rest) = cid.split_at(2);
        rest.is_char_boundary(2)
    } else {
        false
    }
}

/// The object store on disk, rooted at a directory.
pub struct Storage {
    root: String,
}

/// What became of an upload once its temporary file was moved into place.
#[derive(Debug)]
pub enum FinalizeResult {
    /// The object was new: the upload now stands at this path.
    Created(String),
    /// An object with the same content identifier was already at this path.
    AlreadyExisted(String),
}

impl FinalizeResult {
    pub open spec fn spec_is_duplicate(&self) -> bool {
        self is AlreadyExisted
    }

    /// Whether the upload was found to be a duplicate.
    pub fn is_duplicate(&self) -> (r: bool)
        ensures
            r == self.spec_is_duplicate(),
    {
        match self {
            FinalizeResult::Created(_) => false,
            FinalizeResult::AlreadyExisted(_) => true,
        }
    }
}

impl Storage {
    pub closed spec fn root(&self) -> Seq<char> {
        self.root@
    }

    /// A store rooted at `root` (the caller makes the directories).
    pub fn new(root: String) -> (s: Storage)
        ensures
            s.root() == root@,
    {
        Storage { root }
    }

    /// The root directory.
    pub fn root_dir(&self) -> (r: &str)
        ensures
            r@ == self.root(),
    {
        self.root.as_str()
    }

    /// The directory for uploads in progress: `root/tmp`.
    pub fn tmp_dir(&self) -> (p: String)
        ensures
            p@ == path_join(self.root(), tmp_segment()),
    {
        let tmp: &str = "tmp";
        proof {
            reveal_strlit("tmp");
            assert(tmp@ =~= tmp_segment());
        }
        join_path(self.root.as_str(), tmp)
    }

    /// The temporary file of an upload named `id`: `root/tmp/<id>`.
    pub fn temp_path(&self, id: &str) -> (p: String)
        ensures
            p@ == path_join(path_join(self.root(), tmp_segment()), id@),
    {
        let dir = self.tmp_dir();
        join_path(dir.as_str(), id)
    }

    /// Where the object with content identifier `cid` is stored:
    /// `root/objects/aa/bb/cid`, with `aa` its first two bytes and `bb` the next two.
    pub fn path_for_cid(&self, cid: &str) -> (p: String)
        requires
            is_partitionable_cid(cid@),
        ensures
            p@ == spec_path_for_cid(self.root(), cid@),
    {
        let (a, rest) = cid.split_at(2);
        assert(encode_utf8(rest@) == encode_utf8(cid@).subrange(2, encode_utf8(cid@).len() as int));
        let (b, _) = rest.split_at(2);
        let objects: &str = "objects";
        proof {
            reveal_strlit("objects");
            assert(objects@ =~= objects_segment());
            lemma_cid_parts(cid@, a@, rest@, b@);
        }
        let p1 = join_path(self.root.as_str(), objects);
        let p2 = join_path(p1.as_str(), a);
        let p3 = join_path(p2.as_str(), b);
        join_path(p3.as_str(), cid)
    }

    /// What finalizing an upload of `cid` comes to, `found` telling whether
    /// the object's file is already on disk: then the upload is a duplicate of
    /// it (and its temporary file is dropped); otherwise the upload is moved to
    /// the object's path. Either way the path is `path_for_cid(cid)`.
    pub fn finalize_outcome(&self, cid: &str, found: bool) -> (r: FinalizeResult)
        requires
            is_partitionable_cid(cid@),
        ensures
            r.spec_is_duplicate() == found,
            match r {
                FinalizeResult::Created(p) => p@ == spec_path_for_cid(self.root(), cid@),
                FinalizeResult::AlreadyExisted(p) => p@ == spec_path_for_cid(self.root(), cid@),
            },
    {
        let final_path = self.path_for_cid(cid);
        if found {
            FinalizeResult::AlreadyExisted(final_path)
        } else {
            FinalizeResult::Created(final_path)
        }
    }

    /// Whether an object with content identifier `cid` is on disk. What comes
    /// back depends on the file system: the path looked at is `path_for_cid(cid)`.
    pub fn object_exists(&self, cid: &str) -> bool
        requires
            is_partitionable_cid(cid@),
    {
        let p = self.path_for_cid(cid);
        path_exists(p.as_str())
    }
}

/// The UTF-8 bytes of an ASCII character sequence are its characters.
proof fn lemma_ascii_bytes(c: Seq<char>)
    requires
        is_ascii_chars(c),
    ensures
        encode_utf8(c) =~= Seq::new(c.len(), |i: int| c[i] as u8),
        valid_utf8(encode_utf8(c)),
        decode_utf8(encode_utf8(c)) == c,
{
    is_ascii_chars_encode_utf8(c);
    encode_utf8_valid_utf8(c);
    encode_utf8_decode_utf8(c);
}

/// A content identifier is ASCII.
proof fn lemma_content_id_ascii(c: Seq<char>)
    requires
        is_content_id(c),
    ensures
        is_ascii_chars(c),
        forall|i: int, j: int| 0 <= i <= j <= c.len() ==> is_ascii_chars(#[trigger] c.subrange(i, j)),
{
    assert forall|i: int| 0 <= i < c.len() implies '\0' <= #[trigger] c[i] <= '\u{7f}' by {
        assert(is_lower_hex_char(c[i]));
    }
    assert forall|i: int, j: int| 0 <= i <= j <= c.len() implies is_ascii_chars(#[trigger] c.subrange(i, j)) by {
        assert forall|k: int| 0 <= k < j - i implies '\0' <= #[trigger] c.subrange(i, j)[k] <= '\u{7f}' by {
            assert(c.subrange(i, j)[k] == c[i + k]);
        }
    }
}

/// Every content identifier can be partitioned, and its two directory levels
/// are its first two characters and the two after them.
pub proof fn lemma_content_id_levels(c: Seq<char>)
    requires
        is_content_id(c),
    ensures
        is_partitionable_cid(c),
        cid_level1(c) == c.subrange(0, 2),
        cid_level2(c) == c.subrange(2, 4),
{
    lemma_content_id_ascii(c);
    let b = encode_utf8(c);
    lemma_ascii_bytes(c);
    assert(is_lower_hex_char(c[2]));
    assert(is_lower_hex_char(c[4]));
    is_char_boundary_iff_not_is_continuation_byte(b, 2);
    let rest = b.subrange(2, b.len() as int);
    let rc = c.subrange(2, c.len() as int);
    lemma_ascii_bytes(rc);
    assert(rest =~= encode_utf8(rc));
    is_char_boundary_iff_not_is_continuation_byte(rest, 2);
    let c1 = c.subrange(0, 2);
    let c2 = c.subrange(2, 4);
    lemma_ascii_bytes(c1);
    lemma_ascii_bytes(c2);
    assert(b.subrange(0, 2) =~= encode_utf8(c1));
    assert(b.subrange(2, 4) =~= encode_utf8(c2));
}

/// The stored path of a content identifier is
/// `<root joined with "objects">/<first two characters>/<next two>/<cid>`.
pub proof fn law_path_of_content_id(root: Seq<char>, c: Seq<char>)
    requires
        is_content_id(c),
    ensures
        spec_path_for_cid(root, c) == path_join(root, objects_segment()).push('/') + c.subrange(0, 2)
            + seq!['/'] + c.subrange(2, 4) + seq!['/'] + c,
{
    reveal(path_join);
    lemma_content_id_levels(c);
    let j = path_join(root, objects_segment());
    assert(j.last() == 's');
    let c1 = c.subrange(0, 2);
    let c2 = c.subrange(2, 4);
    assert(is_lower_hex_char(c[0]));
    assert(is_lower_hex_char(c[1]));
    assert(is_lower_hex_char(c[2]));
    assert(is_lower_hex_char(c[3]));
    assert(c1[0] == c[0] && c1[1] == c[1]);
    assert(c2[0] == c[2] && c2[1] == c[3]);
    let x1 = path_join(j, c1);
    assert(x1 == j.push('/') + c1);
    let x2 = path_join(x1, c2);
    assert(x2 == x1.push('/') + c2);
    assert(x2.last() == c[3]);
    assert(path_join(x2, c) == x2.push('/') + c);
    assert(spec_path_for_cid(root, c) =~= j.push('/') + c1 + seq!['/'] + c2 + seq!['/'] + c);
}

/// Distinct content identifiers are stored at distinct paths: no two objects
/// share a file.
pub proof fn law_distinct_content_ids_distinct_paths(root: Seq<char>, c1: Seq<char>, c2: Seq<char>)
    requires
        is_content_id(c1),
        is_content_id(c2),
        c1 != c2,
    ensures
        spec_path_for_cid(root, c1) != spec_path_for_cid(root, c2),
{
    law_path_of_content_id(root, c1);
    law_path_of_content_id(root, c2);
    let p1 = spec_path_for_cid(root, c1);
    let p2 = spec_path_for_cid(root, c2);
    if p1 == p2 {
        let n = p1.len();
        assert(p1.subrange(n - 64, n as int) =~= c1);
        assert(p2.subrange(n - 64, n as int) =~= c2);
    }
}

} // verus!
