//! The file bundler: packs a set of files and directories into one archive
//! byte stream, and unpacks such a stream under a destination root.
//!
//! An archive is a flat list of entries; each entry carries a relative path
//! as a list of name segments, a directory flag, and the file bytes. The
//! codec for the archive is verified end to end: unpacking a packed tree
//! reproduces the packed relative structure and contents.

use vstd::prelude::*;
use vstd::string::*;
use crate::codec::{
    spec_enc_u64, spec_enc_bool, spec_enc_bytes, spec_enc_string, spec_dec_u64, spec_dec_bool,
    spec_dec_bytes, spec_dec_string, bytes_fit, string_fits, lemma_dec_enc_u64,
    lemma_dec_enc_bool, lemma_dec_enc_bytes, lemma_dec_enc_string, enc_u64, enc_bool, enc_bytes,
    enc_string, dec_u64, dec_bool, dec_bytes, dec_string,
};
use crate::errors::ArchiveError;

verus! {

/// One input handed to the packer: a plain file, or a directory with all
/// its children, to be walked in full.
pub enum FsNode {
    File { name: String, data: Vec<u8> },
    Dir { name: String, children: Vec<FsNode> },
}

/// One entry of an archive: a relative path as name segments, whether it is
/// a directory, and — for a file — its bytes.
pub struct ArchiveEntry {
    pub path: Vec<String>,
    pub is_dir: bool,
    pub data: Vec<u8>,
}

/// Mathematical image of an `ArchiveEntry`.
pub struct ArchiveEntryV {
    pub path: Seq<Seq<char>>,
    pub is_dir: bool,
    pub data: Seq<u8>,
}

impl View for ArchiveEntry {
    type V = ArchiveEntryV;

    open spec fn view(&self) -> ArchiveEntryV {
        ArchiveEntryV {
            path: Seq::new(self.path@.len(), |i: int| self.path@[i]@),
            is_dir: self.is_dir,
            data: self.data@,
        }
    }
}

/// One file or directory realized under the destination root: its full
/// path and, for a file, its bytes.
pub struct ExtractedEntry {
    pub path: String,
    pub is_dir: bool,
    pub data: Vec<u8>,
}

/// Mathematical image of an `ExtractedEntry`.
pub struct ExtractedEntryV {
    pub path: Seq<char>,
    pub is_dir: bool,
    pub data: Seq<u8>,
}

impl View for ExtractedEntry {
    type V = ExtractedEntryV;

    open spec fn view(&self) -> ExtractedEntryV {
        ExtractedEntryV { path: self.path@, is_dir: self.is_dir, data: self.data@ }
    }
}

// ---------------------------------------------------------------------------
// What a tree flattens to
// ---------------------------------------------------------------------------
/// The archive entries of one input node under `prefix`: a file becomes one
/// entry; a directory becomes its own entry followed by the entries of all
/// its children, walked in full.
pub open spec fn spec_node_entries(prefix: Seq<Seq<char>>, n: FsNode) -> Seq<ArchiveEntryV>
    decreases n,
{
    match n {
        FsNode::File { name, data } => seq![
            ArchiveEntryV { path: prefix.push(name@), is_dir: false, data: data@ },
        ],
        FsNode::Dir { name, children } => seq![
            ArchiveEntryV { path: prefix.push(name@), is_dir: true, data: Seq::empty() },
        ] + spec_nodes_entries(prefix.push(name@), children@),
    }
}

/// The archive entries of a list of input nodes, in order.
pub open spec fn spec_nodes_entries(prefix: Seq<Seq<char>>, s: Seq<FsNode>) -> Seq<ArchiveEntryV>
    decreases s, s.len(),
{
    if s.len() == 0 {
        Seq::empty()
    } else {
        spec_node_entries(prefix, s[0]) + spec_nodes_entries(prefix, s.subrange(1, s.len() as int))
    }
}

/// Appending one node appends its entries.
pub proof fn lemma_nodes_entries_snoc(prefix: Seq<Seq<char>>, s: Seq<FsNode>, n: FsNode)
    ensures
        spec_nodes_entries(prefix, s.push(n)) == spec_nodes_entries(prefix, s)
            + spec_node_entries(prefix, n),
    decreases s.len(),
{
    let whole = s.push(n);
    if s.len() == 0 {
        assert(whole[0] == n);
        assert(whole.subrange(1, whole.len() as int) =~= Seq::<FsNode>::empty());
        assert(spec_nodes_entries(prefix, whole.subrange(1, whole.len() as int))
            == Seq::<ArchiveEntryV>::empty());
        assert(spec_nodes_entries(prefix, s.push(n)) =~= spec_node_entries(prefix, n));
        assert(spec_nodes_entries(prefix, s) + spec_node_entries(prefix, n) =~= spec_node_entries(
            prefix,
            n,
        ));
    } else {
        assert(whole.subrange(1, whole.len() as int) =~= s.subrange(1, s.len() as int).push(n));
        lemma_nodes_entries_snoc(prefix, s.subrange(1, s.len() as int), n);
        assert(whole[0] == s[0]);
        assert(spec_nodes_entries(prefix, s.push(n)) =~= spec_nodes_entries(prefix, s)
            + spec_node_entries(prefix, n));
    }
}

// ---------------------------------------------------------------------------
// Archive bytes
// ---------------------------------------------------------------------------
/// Encoding of a segment path: the segment count, then each segment.
pub open spec fn spec_enc_segments(s: Seq<Seq<char>>) -> Seq<u8>
    decreases s.len(),
{
    if s.len() == 0 {
        Seq::empty()
    } else {
        spec_enc_string(s[0]) + spec_enc_segments(s.subrange(1, s.len() as int))
    }
}

pub open spec fn spec_enc_path(s: Seq<Seq<char>>) -> Seq<u8> {
    spec_enc_u64(s.len() as u64) + spec_enc_segments(s)
}

/// Encoding of one archive entry: path, directory flag, bytes.
pub open spec fn spec_enc_entry(e: ArchiveEntryV) -> Seq<u8> {
    spec_enc_path(e.path) + spec_enc_bool(e.is_dir) + spec_enc_bytes(e.data)
}

/// Encoding of a list of entries, in order.
pub open spec fn spec_enc_entries(s: Seq<ArchiveEntryV>) -> Seq<u8>
    decreases s.len(),
{
    if s.len() == 0 {
        Seq::empty()
    } else {
        spec_enc_entry(s[0]) + spec_enc_entries(s.subrange(1, s.len() as int))
    }
}

/// Encoding of a whole archive: the entry count, then the entries.
pub open spec fn spec_enc_archive(s: Seq<ArchiveEntryV>) -> Seq<u8> {
    spec_enc_u64(s.len() as u64) + spec_enc_entries(s)
}

pub open spec fn segments_fit(s: Seq<Seq<char>>) -> bool {
    &&& s.len() <= u64::MAX
    &&& forall|i: int| 0 <= i < s.len() ==> string_fits(#[trigger] s[i])
}

pub open spec fn entry_fits(e: ArchiveEntryV) -> bool {
    segments_fit(e.path) && bytes_fit(e.data)
}

pub open spec fn entries_fit(s: Seq<ArchiveEntryV>) -> bool {
    &&& s.len() <= u64::MAX
    &&& forall|i: int| 0 <= i < s.len() ==> entry_fits(#[trigger] s[i])
}

/// Appending one segment appends its encoding.
pub proof fn lemma_enc_segments_snoc(s: Seq<Seq<char>>, x: Seq<char>)
    ensures
        spec_enc_segments(s.push(x)) == spec_enc_segments(s) + spec_enc_string(x),
    decreases s.len(),
{
    let whole = s.push(x);
    if s.len() == 0 {
        assert(whole[0] == x);
        assert(whole.subrange(1, whole.len() as int) =~= Seq::<Seq<char>>::empty());
        assert(spec_enc_segments(whole.subrange(1, whole.len() as int)) == Seq::<u8>::empty());
        assert(spec_enc_segments(s.push(x)) =~= spec_enc_string(x));
        assert(spec_enc_segments(s) + spec_enc_string(x) =~= spec_enc_string(x));
    } else {
        assert(whole.subrange(1, whole.len() as int) =~= s.subrange(1, s.len() as int).push(x));
        lemma_enc_segments_snoc(s.subrange(1, s.len() as int), x);
        assert(whole[0] == s[0]);
        assert(spec_enc_segments(s.push(x)) =~= spec_enc_segments(s) + spec_enc_string(x));
    }
}

/// Appending one entry appends its encoding.
pub proof fn lemma_enc_entries_snoc(s: Seq<ArchiveEntryV>, e: ArchiveEntryV)
    ensures
        spec_enc_entries(s.push(e)) == spec_enc_entries(s) + spec_enc_entry(e),
    decreases s.len(),
{
    let whole = s.push(e);
    if s.len() == 0 {
        assert(whole[0] == e);
        assert(whole.subrange(1, whole.len() as int) =~= Seq::<ArchiveEntryV>::empty());
        assert(spec_enc_entries(whole.subrange(1, whole.len() as int)) == Seq::<u8>::empty());
        assert(spec_enc_entries(s.push(e)) =~= spec_enc_entry(e));
        assert(spec_enc_entries(s) + spec_enc_entry(e) =~= spec_enc_entry(e));
    } else {
        assert(whole.subrange(1, whole.len() as int) =~= s.subrange(1, s.len() as int).push(e));
        lemma_enc_entries_snoc(s.subrange(1, s.len() as int), e);
        assert(whole[0] == s[0]);
        assert(spec_enc_entries(s.push(e)) =~= spec_enc_entries(s) + spec_enc_entry(e));
    }
}

// ---------------------------------------------------------------------------
// Decoding
// ---------------------------------------------------------------------------
/// Decodes `count` segments starting at `pos`.
pub open spec fn spec_dec_segments(data: Seq<u8>, pos: int, count: nat) -> Option<
    (Seq<Seq<char>>, int),
>
    decreases count,
{
    if count == 0 {
        Some((Seq::empty(), pos))
    } else {
        match spec_dec_string(data, pos) {
            Some((x, p)) => match spec_dec_segments(data, p, (count - 1) as nat) {
                Some((rest, q)) => Some((seq![x] + rest, q)),
                None => None,
            },
            None => None,
        }
    }
}

pub open spec fn spec_dec_path(data: Seq<u8>, pos: int) -> Option<(Seq<Seq<char>>, int)> {
    match spec_dec_u64(data, pos) {
        Some((n, p)) => spec_dec_segments(data, p, n as nat),
        None => None,
    }
}

pub open spec fn spec_dec_entry(data: Seq<u8>, pos: int) -> Option<(ArchiveEntryV, int)> {
    match spec_dec_path(data, pos) {
        Some((path, p1)) => match spec_dec_bool(data, p1) {
            Some((is_dir, p2)) => match spec_dec_bytes(data, p2) {
                Some((bytes, p3)) => Some((ArchiveEntryV { path, is_dir, data: bytes }, p3)),
                None => None,
            },
            None => None,
        },
        None => None,
    }
}

/// Decodes `count` entries starting at `pos`.
pub open spec fn spec_dec_entries(data: Seq<u8>, pos: int, count: nat) -> Option<
    (Seq<ArchiveEntryV>, int),
>
    decreases count,
{
    if count == 0 {
        Some((Seq::empty(), pos))
    } else {
        match spec_dec_entry(data, pos) {
            Some((e, p)) => match spec_dec_entries(data, p, (count - 1) as nat) {
                Some((rest, q)) => Some((seq![e] + rest, q)),
                None => None,
            },
            None => None,
        }
    }
}

/// Decodes a whole archive; the bytes must be exactly one archive.
pub open spec fn spec_dec_archive(data: Seq<u8>) -> Option<Seq<ArchiveEntryV>> {
    match spec_dec_u64(data, 0) {
        Some((n, p)) => match spec_dec_entries(data, p, n as nat) {
            Some((entries, q)) => if q == data.len() {
                Some(entries)
            } else {
                None
            },
            None => None,
        },
        None => None,
    }
}

/// Round trip for a run of segments.
pub proof fn lemma_dec_enc_segments(data: Seq<u8>, pos: int, s: Seq<Seq<char>>)
    requires
        0 <= pos,
        segments_fit(s),
        pos + spec_enc_segments(s).len() <= data.len(),
        data.subrange(pos, pos + spec_enc_segments(s).len()) == spec_enc_segments(s),
    ensures
        spec_dec_segments(data, pos, s.len()) == Some((s, pos + spec_enc_segments(s).len())),
    decreases s.len(),
{
    if s.len() == 0 {
        assert(spec_dec_segments(data, pos, 0) == Some((Seq::<Seq<char>>::empty(), pos)));
        assert(s =~= Seq::<Seq<char>>::empty());
    } else {
        let tail = s.subrange(1, s.len() as int);
        let e1 = spec_enc_string(s[0]);
        let e2 = spec_enc_segments(tail);
        assert(spec_enc_segments(s) == e1 + e2);
        crate::codec::lemma_concat_split(data, pos, e1, e2);
        lemma_dec_enc_string(data, pos, s[0]);
        lemma_dec_enc_segments(data, pos + e1.len(), tail);
        assert(seq![s[0]] + tail =~= s);
    }
}

/// Round trip for one entry.
pub proof fn lemma_dec_enc_entry(data: Seq<u8>, pos: int, e: ArchiveEntryV)
    requires
        0 <= pos,
        entry_fits(e),
        pos + spec_enc_entry(e).len() <= data.len(),
        data.subrange(pos, pos + spec_enc_entry(e).len()) == spec_enc_entry(e),
    ensures
        spec_dec_entry(data, pos) == Some((e, pos + spec_enc_entry(e).len())),
{
    let e1 = spec_enc_path(e.path);
    let e2 = spec_enc_bool(e.is_dir);
    let e3 = spec_enc_bytes(e.data);
    assert(spec_enc_entry(e) =~= e1 + (e2 + e3));
    crate::codec::lemma_concat_split(data, pos, e1, e2 + e3);
    crate::codec::lemma_concat_split(data, pos + e1.len(), e2, e3);
    // the path: count then segments
    let c1 = spec_enc_u64(e.path.len() as u64);
    let c2 = spec_enc_segments(e.path);
    assert(e1 == c1 + c2);
    crate::codec::lemma_concat_split(data, pos, c1, c2);
    vstd::bytes::lemma_auto_spec_u64_to_from_le_bytes();
    lemma_dec_enc_u64(data, pos, e.path.len() as u64);
    lemma_dec_enc_segments(data, pos + 8, e.path);
    lemma_dec_enc_bool(data, pos + e1.len(), e.is_dir);
    lemma_dec_enc_bytes(data, pos + e1.len() + 1, e.data);
}

/// Round trip for a run of entries.
pub proof fn lemma_dec_enc_entries(data: Seq<u8>, pos: int, s: Seq<ArchiveEntryV>)
    requires
        0 <= pos,
        entries_fit(s),
        pos + spec_enc_entries(s).len() <= data.len(),
        data.subrange(pos, pos + spec_enc_entries(s).len()) == spec_enc_entries(s),
    ensures
        spec_dec_entries(data, pos, s.len()) == Some((s, pos + spec_enc_entries(s).len())),
    decreases s.len(),
{
    if s.len() == 0 {
        assert(s =~= Seq::<ArchiveEntryV>::empty());
    } else {
        let tail = s.subrange(1, s.len() as int);
        let e1 = spec_enc_entry(s[0]);
        let e2 = spec_enc_entries(tail);
        assert(spec_enc_entries(s) == e1 + e2);
        crate::codec::lemma_concat_split(data, pos, e1, e2);
        lemma_dec_enc_entry(data, pos, s[0]);
        lemma_dec_enc_entries(data, pos + e1.len(), tail);
        assert(seq![s[0]] + tail =~= s);
    }
}

// ---------------------------------------------------------------------------
// Executable packing
// ---------------------------------------------------------------------------
/// Mathematical image of a list of archive entries.
pub open spec fn entries_view(s: Seq<ArchiveEntry>) -> Seq<ArchiveEntryV> {
    Seq::new(s.len(), |i: int| s[i]@)
}

/// Mathematical image of a segment path.
pub open spec fn segments_view(s: Seq<String>) -> Seq<Seq<char>> {
    Seq::new(s.len(), |i: int| s[i]@)
}

/// A copy of `prefix` with `name` appended.
fn extended_path(prefix: &Vec<String>, name: &String) -> (r: Vec<String>)
    ensures
        segments_view(r@) == segments_view(prefix@).push(name@),
{
    let mut r: Vec<String> = Vec::new();
    let mut i: usize = 0;
    while i < prefix.len()
        invariant
            i <= prefix.len(),
            r@.len() == i,
            forall|k: int| 0 <= k < i ==> r@[k]@ == #[trigger] prefix@[k]@,
        decreases prefix.len() - i,
    {
        r.push(prefix[i].clone());
        i = i + 1;
    }
    r.push(name.clone());
    assert(segments_view(r@) =~= segments_view(prefix@).push(name@));
    r
}

/// Appends the encoding of one entry.
#[verifier::loop_isolation(false)]
fn enc_entry(out: &mut Vec<u8>, e: &ArchiveEntry)
    ensures
        final(out)@ == old(out)@ + spec_enc_entry(e@),
{
    enc_u64(out, e.path.len() as u64);
    let mut i: usize = 0;
    while i < e.path.len()
        invariant
            i <= e.path.len(),
            out@ == old(out)@ + spec_enc_u64(e.path@.len() as u64) + spec_enc_segments(
                e@.path.take(i as int),
            ),
        decreases e.path.len() - i,
    {
        enc_string(out, &e.path[i]);
        proof {
            lemma_enc_segments_snoc(e@.path.take(i as int), e@.path[i as int]);
            assert(e@.path.take(i + 1) =~= e@.path.take(i as int).push(e@.path[i as int]));
        }
        i = i + 1;
    }
    assert(e@.path.take(e.path.len() as int) =~= e@.path);
    enc_bool(out, e.is_dir);
    enc_bytes(out, &e.data);
    assert(out@ =~= old(out)@ + spec_enc_entry(e@));
}

/// Collects the entries of one input node, walking directories in full.
#[verifier::loop_isolation(false)]
fn pack_node(entries: &mut Vec<ArchiveEntry>, prefix: &Vec<String>, n: &FsNode)
    ensures
        entries_view(final(entries)@) == entries_view(old(entries)@) + spec_node_entries(
            segments_view(prefix@),
            *n,
        ),
    decreases *n,
{
    match n {
        FsNode::File { name, data } => {
            let path = extended_path(prefix, name);
            let bytes = vstd::slice::slice_to_vec(data.as_slice());
            entries.push(ArchiveEntry { path, is_dir: false, data: bytes });
            assert(entries_view(entries@) =~= entries_view(old(entries)@) + spec_node_entries(
                segments_view(prefix@),
                *n,
            ));
        },
        FsNode::Dir { name, children } => {
            let path = extended_path(prefix, name);
            let child_prefix = extended_path(prefix, name);
            entries.push(ArchiveEntry { path, is_dir: true, data: Vec::new() });
            let ghost base = entries_view(entries@);
            let ghost cpv = segments_view(prefix@).push(name@);
            assert(segments_view(child_prefix@) == cpv);
            let mut i: usize = 0;
            while i < children.len()
                invariant
                    i <= children.len(),
                    entries_view(entries@) == base + spec_nodes_entries(
                        cpv,
                        children@.take(i as int),
                    ),
                decreases children.len() - i,
            {
                proof {
                    assert(spec_nodes_entries(cpv, children@.take(i as int)).len() >= 0);
                }
                pack_node(entries, &child_prefix, &children[i]);
                proof {
                    lemma_nodes_entries_snoc(cpv, children@.take(i as int), children@[i as int]);
                    assert(children@.take(i + 1) =~= children@.take(i as int).push(
                        children@[i as int],
                    ));
                }
                i = i + 1;
            }
            proof {
                assert(children@.take(children.len() as int) =~= children@);
                assert(base =~= entries_view(old(entries)@) + seq![
                    ArchiveEntryV {
                        path: segments_view(prefix@).push(name@),
                        is_dir: true,
                        data: Seq::empty(),
                    },
                ]);
                assert(entries_view(entries@) =~= entries_view(old(entries)@) + spec_node_entries(
                    segments_view(prefix@),
                    *n,
                ));
            }
        },
    }
}

/// Packs the inputs into one archive byte stream. Every descendant of every
/// directory is included, in order.
#[verifier::loop_isolation(false)]
pub fn pack(paths: &Vec<FsNode>) -> (r: Vec<u8>)
    ensures
        r@ == spec_enc_archive(spec_nodes_entries(Seq::empty(), paths@)),
{
    let mut entries: Vec<ArchiveEntry> = Vec::new();
    let empty_prefix: Vec<String> = Vec::new();
    assert(segments_view(empty_prefix@) =~= Seq::<Seq<char>>::empty());
    let mut i: usize = 0;
    while i < paths.len()
        invariant
            i <= paths.len(),
            entries_view(entries@) == spec_nodes_entries(
                Seq::<Seq<char>>::empty(),
                paths@.take(i as int),
            ),
        decreases paths.len() - i,
    {
        pack_node(&mut entries, &empty_prefix, &paths[i]);
        proof {
            lemma_nodes_entries_snoc(
                Seq::<Seq<char>>::empty(),
                paths@.take(i as int),
                paths@[i as int],
            );
            assert(paths@.take(i + 1) =~= paths@.take(i as int).push(paths@[i as int]));
        }
        i = i + 1;
    }
    assert(paths@.take(paths.len() as int) =~= paths@);
    let ghost evs = spec_nodes_entries(Seq::<Seq<char>>::empty(), paths@);
    let mut out: Vec<u8> = Vec::new();
    enc_u64(&mut out, entries.len() as u64);
    let mut j: usize = 0;
    while j < entries.len()
        invariant
            j <= entries.len(),
            entries_view(entries@) == evs,
            out@ == spec_enc_u64(evs.len() as u64) + spec_enc_entries(evs.take(j as int)),
        decreases entries.len() - j,
    {
        enc_entry(&mut out, &entries[j]);
        proof {
            lemma_enc_entries_snoc(evs.take(j as int), evs[j as int]);
            assert(evs.take(j + 1) =~= evs.take(j as int).push(evs[j as int]));
            assert(entries@[j as int]@ == evs[j as int]);
        }
        j = j + 1;
    }
    assert(evs.take(entries.len() as int) =~= evs);
    out
}

/// Decoding an encoded archive yields exactly its entries.
pub proof fn lemma_dec_enc_archive(s: Seq<ArchiveEntryV>)
    requires
        entries_fit(s),
    ensures
        spec_dec_archive(spec_enc_archive(s)) == Some(s),
{
    let data = spec_enc_archive(s);
    let c1 = spec_enc_u64(s.len() as u64);
    let c2 = spec_enc_entries(s);
    vstd::bytes::lemma_auto_spec_u64_to_from_le_bytes();
    assert(data.subrange(0, data.len() as int) =~= data);
    crate::codec::lemma_concat_split(data, 0, c1, c2);
    lemma_dec_enc_u64(data, 0, s.len() as u64);
    lemma_dec_enc_entries(data, 8, s);
}

// ---------------------------------------------------------------------------
// Executable unpacking
// ---------------------------------------------------------------------------
/// Decodes one entry at `pos`.
#[verifier::loop_isolation(false)]
fn dec_entry(data: &Vec<u8>, pos: usize) -> (r: Option<(ArchiveEntry, usize)>)
    ensures
        r is Some <==> spec_dec_entry(data@, pos as int) is Some,
        r matches Some(p) ==> spec_dec_entry(data@, pos as int) == Some((p.0@, p.1 as int)),
        r matches Some(p) ==> pos < p.1 <= data.len(),
{
    let (n, seg_start) = match dec_u64(data, pos) {
        Some(v) => v,
        None => {
            return None;
        },
    };
    let mut segs: Vec<String> = Vec::new();
    let mut cur: usize = seg_start;
    let mut k: u64 = 0;
    while k < n
        invariant
            k <= n,
            seg_start <= cur <= data.len(),
            segments_view(segs@).len() == k,
            (match spec_dec_segments(data@, cur as int, (n - k) as nat) {
                Some((rest, q)) => spec_dec_segments(data@, seg_start as int, n as nat) == Some(
                    (segments_view(segs@) + rest, q),
                ),
                None => spec_dec_segments(data@, seg_start as int, n as nat) is None,
            }),
        decreases n - k,
    {
        match dec_string(data, cur) {
            Some((s, p)) => {
                proof {
                    match spec_dec_segments(data@, p as int, (n - k - 1) as nat) {
                        Some((tail, q)) => {
                            assert(segments_view(segs@) + (seq![s@] + tail) =~= segments_view(
                                segs@,
                            ).push(s@) + tail);
                        },
                        None => {},
                    }
                }
                segs.push(s);
                assert(segments_view(segs@) =~= segments_view(segs@.drop_last()).push(
                    segs@.last()@,
                ));
                cur = p;
                k = k + 1;
            },
            None => {
                return None;
            },
        }
    }
    let path_end: Ghost<int> = Ghost(cur as int);
    assert(spec_dec_segments(data@, cur as int, 0) == Some((Seq::<Seq<char>>::empty(), cur as int)));
    assert(segments_view(segs@) + Seq::<Seq<char>>::empty() =~= segments_view(segs@));
    let (is_dir, p2) = match dec_bool(data, cur) {
        Some(v) => v,
        None => {
            return None;
        },
    };
    let (bytes, p3) = match dec_bytes(data, p2) {
        Some(v) => v,
        None => {
            return None;
        },
    };
    let e = ArchiveEntry { path: segs, is_dir, data: bytes };
    assert(e@.path =~= segments_view(e.path@));
    Some((e, p3))
}

/// Mathematical image of a list of extracted entries.
pub open spec fn extracted_view(s: Seq<ExtractedEntry>) -> Seq<ExtractedEntryV> {
    Seq::new(s.len(), |i: int| s[i]@)
}

/// A name segment that cannot redirect extraction: non-empty, no path
/// separator, and neither `.` nor `..`.
pub open spec fn safe_segment(s: Seq<char>) -> bool {
    &&& s.len() > 0
    &&& (forall|i: int| 0 <= i < s.len() ==> s[i] != '/')
    &&& !(s.len() == 1 && s[0] == '.')
    &&& !(s.len() == 2 && s[0] == '.' && s[1] == '.')
}

/// A relative path that stays under the destination root.
pub open spec fn safe_path(p: Seq<Seq<char>>) -> bool {
    &&& p.len() > 0
    &&& (forall|i: int| 0 <= i < p.len() ==> safe_segment(#[trigger] p[i]))
}

pub open spec fn all_entries_safe(s: Seq<ArchiveEntryV>) -> bool {
    forall|i: int| 0 <= i < s.len() ==> safe_path(#[trigger] s[i].path)
}

/// The segments joined with `/` between them.
pub open spec fn spec_joined(p: Seq<Seq<char>>) -> Seq<char>
    decreases p.len(),
{
    if p.len() == 0 {
        Seq::empty()
    } else if p.len() == 1 {
        p[0]
    } else {
        spec_joined(p.drop_last()) + seq!['/'] + p.last()
    }
}

/// The full path an entry lands on: the destination root, a separator, the
/// joined relative path.
pub open spec fn spec_realized(dest: Seq<char>, p: Seq<Seq<char>>) -> Seq<char> {
    dest + seq!['/'] + spec_joined(p)
}

/// Where each entry of an archive lands under `dest`, contents unchanged.
pub open spec fn spec_extract(s: Seq<ArchiveEntryV>, dest: Seq<char>) -> Seq<ExtractedEntryV> {
    Seq::new(
        s.len(),
        |i: int|
            ExtractedEntryV {
                path: spec_realized(dest, s[i].path),
                is_dir: s[i].is_dir,
                data: s[i].data,
            },
    )
}

/// What unpacking a byte stream under a destination root yields: the
/// realized entries, or the reason the stream is refused.
pub open spec fn spec_unpack(archive: Seq<u8>, dest: Seq<char>) -> Result<
    Seq<ExtractedEntryV>,
    ArchiveError,
> {
    match spec_dec_archive(archive) {
        None => Err(ArchiveError::MalformedArchive),
        Some(es) => if all_entries_safe(es) {
            Ok(spec_extract(es, dest))
        } else {
            Err(ArchiveError::UnsafeEntryPath)
        },
    }
}

/// Whether this segment can take part in extraction.
fn is_safe_segment(s: &String) -> (r: bool)
    ensures
        r == safe_segment(s@),
{
    let len = s.as_str().unicode_len();
    if len == 0 {
        return false;
    }
    if len == 1 && s.as_str().get_char(0) == '.' {
        return false;
    }
    if len == 2 && s.as_str().get_char(0) == '.' && s.as_str().get_char(1) == '.' {
        return false;
    }
    let mut i: usize = 0;
    while i < len
        invariant
            i <= len,
            len == s@.len(),
            forall|k: int| 0 <= k < i ==> s@[k] != '/',
        decreases len - i,
    {
        if s.as_str().get_char(i) == '/' {
            return false;
        }
        i = i + 1;
    }
    true
}

/// Joins the destination root and the relative segments with separators.
#[verifier::loop_isolation(false)]
fn join_path(dest: &String, p: &Vec<String>) -> (r: String)
    requires
        p@.len() >= 1,
    ensures
        r@ == spec_realized(dest@, segments_view(p@)),
{
    let mut r = dest.clone();
    r.append("/");
    proof {
        reveal_strlit("/");
        assert(("/")@ =~= seq!['/']);
    }
    r.append(p[0].as_str());
    proof {
        let sv = segments_view(p@);
        assert(spec_joined(sv.take(1)) == sv.take(1)[0]);
        assert(sv.take(1)[0] == sv[0]);
    }
    let mut i: usize = 1;
    while i < p.len()
        invariant
            1 <= i <= p.len(),
            r@ == dest@ + seq!['/'] + spec_joined(segments_view(p@).take(i as int)),
        decreases p.len() - i,
    {
        r.append("/");
        r.append(p[i].as_str());
        proof {
            reveal_strlit("/");
            assert(("/")@ =~= seq!['/']);
            let sv = segments_view(p@);
            assert(sv.take(i + 1).drop_last() =~= sv.take(i as int));
            assert(sv.take(i + 1).last() == sv[i as int]);
        }
        i = i + 1;
    }
    assert(segments_view(p@).take(p.len() as int) =~= segments_view(p@));
    r
}

/// Unpacks an archive under a destination root: every entry is realized at
/// its joined path, contents unchanged; a malformed stream or an entry that
/// would escape the root is refused.
#[verifier::loop_isolation(false)]
pub fn unpack(archive: &Vec<u8>, destination: &String) -> (r: Result<
    Vec<ExtractedEntry>,
    ArchiveError,
>)
    ensures
        spec_dec_archive(archive@) is None ==> (r matches Err(e) && e
            == ArchiveError::MalformedArchive),
        spec_dec_archive(archive@) matches Some(es) ==> ((all_entries_safe(es) ==> (r matches Ok(v)
            && extracted_view(v@) == spec_extract(es, destination@))) && (!all_entries_safe(es)
            ==> (r matches Err(e) && e == ArchiveError::UnsafeEntryPath))),
{
    let (count, first) = match dec_u64(archive, 0) {
        Some(v) => v,
        None => {
            return Err(ArchiveError::MalformedArchive);
        },
    };
    let mut entries: Vec<ArchiveEntry> = Vec::new();
    let mut cur: usize = first;
    let mut k: u64 = 0;
    while k < count
        invariant
            k <= count,
            cur <= archive.len(),
            entries_view(entries@).len() == k,
            (match spec_dec_entries(archive@, cur as int, (count - k) as nat) {
                Some((rest, q)) => spec_dec_entries(archive@, first as int, count as nat) == Some(
                    (entries_view(entries@) + rest, q),
                ),
                None => spec_dec_entries(archive@, first as int, count as nat) is None,
            }),
        decreases count - k,
    {
        match dec_entry(archive, cur) {
            Some((e, p)) => {
                proof {
                    match spec_dec_entries(archive@, p as int, (count - k - 1) as nat) {
                        Some((tail, q)) => {
                            assert(entries_view(entries@) + (seq![e@] + tail) =~= entries_view(
                                entries@,
                            ).push(e@) + tail);
                        },
                        None => {},
                    }
                }
                entries.push(e);
                assert(entries_view(entries@) =~= entries_view(entries@.drop_last()).push(
                    entries@.last()@,
                ));
                cur = p;
                k = k + 1;
            },
            None => {
                return Err(ArchiveError::MalformedArchive);
            },
        }
    }
    assert(spec_dec_entries(archive@, cur as int, 0) == Some(
        (Seq::<ArchiveEntryV>::empty(), cur as int),
    ));
    assert(entries_view(entries@) + Seq::<ArchiveEntryV>::empty() =~= entries_view(entries@));
    if cur != archive.len() {
        return Err(ArchiveError::MalformedArchive);
    }
    let ghost es = entries_view(entries@);
    // Refuse any entry whose path could land outside the destination root.
    let mut i: usize = 0;
    while i < entries.len()
        invariant
            i <= entries.len(),
            entries_view(entries@) == es,
            forall|a: int| 0 <= a < i ==> safe_path(#[trigger] es[a].path),
        decreases entries.len() - i,
    {
        let e = &entries[i];
        assert(es[i as int] == entries@[i as int]@);
        if e.path.len() == 0 {
            assert(!safe_path(es[i as int].path));
            return Err(ArchiveError::UnsafeEntryPath);
        }
        let mut j: usize = 0;
        while j < e.path.len()
            invariant
                j <= e.path.len(),
                forall|b: int| 0 <= b < j ==> safe_segment(#[trigger] e@.path[b]),
            decreases e.path.len() - j,
        {
            if !is_safe_segment(&e.path[j]) {
                assert(e@.path[j as int] == e.path@[j as int]@);
                assert(!safe_segment(e@.path[j as int]));
                assert(!safe_path(es[i as int].path));
                return Err(ArchiveError::UnsafeEntryPath);
            }
            j = j + 1;
        }
        assert(safe_path(es[i as int].path));
        i = i + 1;
    }
    assert(all_entries_safe(es));
    // Realize every entry under the destination root.
    let mut out: Vec<ExtractedEntry> = Vec::new();
    let mut i2: usize = 0;
    while i2 < entries.len()
        invariant
            i2 <= entries.len(),
            entries_view(entries@) == es,
            all_entries_safe(es),
            extracted_view(out@) == spec_extract(es, destination@).take(i2 as int),
        decreases entries.len() - i2,
    {
        let e = &entries[i2];
        assert(safe_path(es[i2 as int].path));
        let path = join_path(destination, &e.path);
        let bytes = vstd::slice::slice_to_vec(e.data.as_slice());
        out.push(ExtractedEntry { path, is_dir: e.is_dir, data: bytes });
        assert(extracted_view(out@) =~= spec_extract(es, destination@).take(i2 + 1));
        i2 = i2 + 1;
    }
    assert(spec_extract(es, destination@).take(entries.len() as int) =~= spec_extract(
        es,
        destination@,
    ));
    Ok(out)
}

/// Unpacks an archive under a destination root and reports the realized
/// paths, directories included, in archive order.
pub fn unzip_file(archive: &Vec<u8>, destination: &String) -> (r: Result<Vec<String>, ArchiveError>)
    ensures
        spec_dec_archive(archive@) is None ==> (r matches Err(e) && e
            == ArchiveError::MalformedArchive),
        spec_dec_archive(archive@) matches Some(es) ==> ((all_entries_safe(es) ==> (r matches Ok(v)
            && v@.len() == es.len() && (forall|i: int|
            0 <= i < es.len() ==> v@[i]@ == spec_realized(destination@, #[trigger] es[i].path))))
            && (!all_entries_safe(es) ==> (r matches Err(e) && e
            == ArchiveError::UnsafeEntryPath))),
{
    match unpack(archive, destination) {
        Ok(entries) => {
            let ghost es = spec_dec_archive(archive@).unwrap();
            proof {
                assert(spec_dec_archive(archive@) is Some);
                assert(all_entries_safe(es));
                assert(extracted_view(entries@) == spec_extract(es, destination@));
                assert(extracted_view(entries@).len() == entries@.len());
                assert(spec_extract(es, destination@).len() == es.len());
            }
            let mut out: Vec<String> = Vec::new();
            let mut i: usize = 0;
            while i < entries.len()
                invariant
                    i <= entries.len(),
                    extracted_view(entries@) == spec_extract(es, destination@),
                    es.len() == entries@.len(),
                    out@.len() == i,
                    forall|a: int|
                        0 <= a < i ==> out@[a]@ == spec_realized(
                            destination@,
                            #[trigger] es[a].path,
                        ),
                decreases entries.len() - i,
            {
                out.push(entries[i].path.clone());
                assert(entries@[i as int]@ == spec_extract(es, destination@)[i as int]);
                i = i + 1;
            }
            Ok(out)
        },
        Err(e) => Err(e),
    }
}

// ---------------------------------------------------------------------------
// The round-trip law
// ---------------------------------------------------------------------------
/// An input node whose names can take part in extraction.
pub open spec fn node_ok(n: FsNode) -> bool
    decreases n,
{
    match n {
        FsNode::File { name, data } => safe_segment(name@),
        FsNode::Dir { name, children } => safe_segment(name@) && nodes_ok(children@),
    }
}

pub open spec fn nodes_ok(s: Seq<FsNode>) -> bool
    decreases s, s.len(),
{
    if s.len() == 0 {
        true
    } else {
        node_ok(s[0]) && nodes_ok(s.subrange(1, s.len() as int))
    }
}

pub open spec fn all_segments_safe(p: Seq<Seq<char>>) -> bool {
    forall|i: int| 0 <= i < p.len() ==> safe_segment(#[trigger] p[i])
}

/// The entries of a well-named node under a well-named prefix all have
/// safe paths.
proof fn lemma_node_entries_safe(prefix: Seq<Seq<char>>, n: FsNode)
    requires
        all_segments_safe(prefix),
        node_ok(n),
    ensures
        all_entries_safe(spec_node_entries(prefix, n)),
    decreases n,
{
    match n {
        FsNode::File { name, data } => {
            assert forall|i: int| 0 <= i < prefix.push(name@).len() implies safe_segment(
                #[trigger] prefix.push(name@)[i],
            ) by {}
        },
        FsNode::Dir { name, children } => {
            let cp = prefix.push(name@);
            assert forall|i: int| 0 <= i < cp.len() implies safe_segment(#[trigger] cp[i]) by {}
            lemma_nodes_entries_safe(cp, children@);
            let own = seq![ArchiveEntryV { path: cp, is_dir: true, data: Seq::empty() }];
            let rest = spec_nodes_entries(cp, children@);
            assert forall|i: int| 0 <= i < (own + rest).len() implies safe_path(
                #[trigger] (own + rest)[i].path,
            ) by {
                if i >= 1 {
                    assert((own + rest)[i] == rest[i - 1]);
                }
            }
        },
    }
}

proof fn lemma_nodes_entries_safe(prefix: Seq<Seq<char>>, s: Seq<FsNode>)
    requires
        all_segments_safe(prefix),
        nodes_ok(s),
    ensures
        all_entries_safe(spec_nodes_entries(prefix, s)),
    decreases s, s.len(),
{
    if s.len() > 0 {
        lemma_node_entries_safe(prefix, s[0]);
        lemma_nodes_entries_safe(prefix, s.subrange(1, s.len() as int));
        let own = spec_node_entries(prefix, s[0]);
        let rest = spec_nodes_entries(prefix, s.subrange(1, s.len() as int));
        assert forall|i: int| 0 <= i < (own + rest).len() implies safe_path(
            #[trigger] (own + rest)[i].path,
        ) by {
            if i >= own.len() {
                assert((own + rest)[i] == rest[i - own.len()]);
            }
        }
    }
}

/// The bundler round trip: unpacking a packed set of well-named inputs
/// under any destination root yields exactly the packed relative structure
/// — one realized entry per packed entry, same relative paths, same bytes.
pub proof fn lemma_pack_unpack_roundtrip(nodes: Seq<FsNode>, dest: Seq<char>)
    requires
        nodes_ok(nodes),
        entries_fit(spec_nodes_entries(Seq::empty(), nodes)),
    ensures
        spec_unpack(spec_enc_archive(spec_nodes_entries(Seq::empty(), nodes)), dest) == Ok::<
            Seq<ExtractedEntryV>,
            ArchiveError,
        >(spec_extract(spec_nodes_entries(Seq::empty(), nodes), dest)),
{
    let es = spec_nodes_entries(Seq::<Seq<char>>::empty(), nodes);
    lemma_dec_enc_archive(es);
    assert(all_segments_safe(Seq::<Seq<char>>::empty()));
    lemma_nodes_entries_safe(Seq::<Seq<char>>::empty(), nodes);
}

} // verus!
