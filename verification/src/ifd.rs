//! The directory decoder: walks the TIFF header and the chain of image
//! file directories, follows sub-directory pointers, and collects one
//! `Field` per ordinary entry.
//!
//! Traversal is defensive: every visited directory offset is recorded
//! and a repeat is `CyclicDirectory`; nesting is depth-bounded and
//! overflow of the bound is `DirectoryTooDeep`; every read is bounds
//! checked. Termination does not rest on well-formed input: each
//! directory visit consumes one distinct in-range offset, and a buffer
//! only has finitely many.

use vstd::prelude::*;
use vstd::seq_lib::*;
use vstd::set_lib::*;

use crate::bytes::ByteCursor;
use crate::bytes::spec_u16_at;
use crate::bytes::spec_u32_at;
use crate::bytes::read_u16;
use crate::bytes::read_u32;
use crate::bytes::subvec;
use crate::error::ExifError;
use crate::model::ByteOrder;
use crate::model::ContainerKind;
use crate::model::ExifDocument;
use crate::model::Field;
use crate::model::IfdKind;
use crate::model::RawEntry;
use crate::registry::spec_tag_name;
use crate::registry::spec_tag_unit;
use crate::registry::tag_name;
use crate::registry::tag_unit;
use crate::value::byte_len;
use crate::value::decode_value;
use crate::value::spec_decode;
use crate::value::type_size;

verus! {

/// The deepest directory nesting the walker follows.
pub const MAX_DEPTH: usize = 8;

/// The set of already-visited directory offsets: all distinct, all
/// inside the buffer.
pub open spec fn visited_inv(v: Seq<usize>, len: int) -> bool {
    v.no_duplicates() && forall|i: int| 0 <= i < v.len() ==> (v[i] as int) < len
}

/// Appending a fresh in-range offset keeps the visited set well formed.
proof fn lemma_push_distinct(v: Seq<usize>, x: usize, len: int)
    requires
        visited_inv(v, len),
        !v.contains(x),
        (x as int) < len,
    ensures
        visited_inv(v.push(x), len),
{
    let w = v.push(x);
    assert forall|i: int, j: int|
        0 <= i < w.len() && 0 <= j < w.len() && i != j implies w[i] != w[j] by {
        if i < v.len() && j < v.len() {
        } else if i == v.len() {
            assert(w[j] == v[j]);
            if v[j] == x {
                assert(v.contains(x));
            }
        } else {
            assert(w[i] == v[i]);
            if v[i] == x {
                assert(v.contains(x));
            }
        }
    }
}

/// Distinct offsets below `len` number at most `len`: the pigeonhole
/// bound behind termination of the walk.
proof fn lemma_visited_bound(v: Seq<usize>, len: int)
    requires
        visited_inv(v, len),
        len >= 0,
    ensures
        v.len() <= len,
{
    let m = v.map_values(|x: usize| x as int);
    assert forall|i: int, j: int|
        0 <= i < m.len() && 0 <= j < m.len() && i != j implies m[i] != m[j] by {
        assert(v[i] != v[j]);
    }
    m.unique_seq_to_set();
    lemma_int_range(0, len);
    assert forall|x: int| m.to_set().contains(x) implies set_int_range(0, len).contains(x) by {
        let i = choose|i: int| 0 <= i < m.len() && m[i] == x;
        assert(0 <= (v[i] as int) < len);
    }
    lemma_len_subset(m.to_set(), set_int_range(0, len));
}

/// Whether the walker has already been at `x`.
fn contains_offset(v: &Vec<usize>, x: usize) -> (r: bool)
    ensures
        r == v@.contains(x),
{
    let mut i: usize = 0;
    while i < v.len()
        invariant
            0 <= i <= v@.len(),
            forall|j: int| 0 <= j < i ==> v@[j] != x,
        decreases v@.len() - i,
    {
        if v[i] == x {
            return true;
        }
        i = i + 1;
    }
    false
}

/// The raw entry stored at `pos`: two shorts, a long, and the four
/// value-or-offset bytes.
pub open spec fn spec_entry_at(s: Seq<u8>, order: ByteOrder, pos: int) -> RawEntry {
    RawEntry {
        tag_id: spec_u16_at(s, pos, order),
        type_code: spec_u16_at(s, pos + 2, order),
        count: spec_u32_at(s, pos + 4, order),
        raw: (s[pos + 8], s[pos + 9], s[pos + 10], s[pos + 11]),
    }
}

/// Read the 12-byte directory entry at `pos`.
fn read_entry(data: &Vec<u8>, order: ByteOrder, pos: usize) -> (r: RawEntry)
    requires
        pos + 12 <= data@.len(),
    ensures
        r == spec_entry_at(data@, order, pos as int),
{
    let mut cur = ByteCursor::new(data, order);
    cur.seek_absolute(pos);
    let tag_id = match cur.read_u16() {
        Ok(v) => v,
        Err(_) => 0,
    };
    let type_code = match cur.read_u16() {
        Ok(v) => v,
        Err(_) => 0,
    };
    let count = match cur.read_u32() {
        Ok(v) => v,
        Err(_) => 0,
    };
    let b0 = match cur.read_u8() {
        Ok(v) => v,
        Err(_) => 0,
    };
    let b1 = match cur.read_u8() {
        Ok(v) => v,
        Err(_) => 0,
    };
    let b2 = match cur.read_u8() {
        Ok(v) => v,
        Err(_) => 0,
    };
    let b3 = match cur.read_u8() {
        Ok(v) => v,
        Err(_) => 0,
    };
    RawEntry { tag_id, type_code, count, raw: (b0, b1, b2, b3) }
}

/// One element size, as executable code.
fn type_size_exec(t: u16) -> (r: u64)
    ensures
        r == type_size(t),
{
    if t == 3 {
        2
    } else if t == 4 || t == 9 {
        4
    } else if t == 5 || t == 10 {
        8
    } else {
        1
    }
}

/// The unsigned 32-bit reading of an entry's four inline bytes.
fn u32_of_raw(e: &RawEntry, order: ByteOrder) -> (r: u32)
    ensures
        r == spec_u32_at(e.raw_bytes(), 0, order),
{
    let b0 = e.raw.0 as u32;
    let b1 = e.raw.1 as u32;
    let b2 = e.raw.2 as u32;
    let b3 = e.raw.3 as u32;
    match order {
        ByteOrder::Little => b0 + b1 * 0x100 + b2 * 0x10000 + b3 * 0x1000000,
        ByteOrder::Big => b3 + b2 * 0x100 + b1 * 0x10000 + b0 * 0x1000000,
    }
}

/// The bytes an entry's value consists of: the inline bytes when the
/// value fits in four bytes, the pointed-to range otherwise, and
/// nothing when that range crosses the buffer boundary.
pub open spec fn spec_value_bytes(data: Seq<u8>, order: ByteOrder, e: RawEntry) -> Option<
    Seq<u8>,
> {
    let n = byte_len(e.type_code, e.count) as int;
    if n <= 4 {
        Some(e.raw_bytes().take(n))
    } else {
        let off = spec_u32_at(e.raw_bytes(), 0, order) as int;
        if off + n <= data.len() {
            Some(data.subrange(off, off + n))
        } else {
            None
        }
    }
}

/// Fetch the value bytes of an entry, inline or through its pointer.
fn fetch_value_bytes(data: &Vec<u8>, order: ByteOrder, e: &RawEntry) -> (r: Result<
    Vec<u8>,
    ExifError,
>)
    ensures
        match spec_value_bytes(data@, order, *e) {
            Some(b) => (r matches Ok(v) && v@ == b),
            None => r == Err::<Vec<u8>, ExifError>(ExifError::OutOfBounds),
        },
{
    let size = type_size_exec(e.type_code);
    proof {
        assert(e.count as u64 * size <= 0xFFFFFFFFu64 * 8) by (nonlinear_arith)
            requires
                size <= 8,
                e.count as u64 <= 0xFFFFFFFFu64,
        ;
    }
    let n: u64 = e.count as u64 * size;
    proof {
        assert(n == byte_len(e.type_code, e.count));
    }
    if n <= 4 {
        let m = n as usize;
        let mut v: Vec<u8> = Vec::new();
        if m >= 1 {
            v.push(e.raw.0);
        }
        if m >= 2 {
            v.push(e.raw.1);
        }
        if m >= 3 {
            v.push(e.raw.2);
        }
        if m >= 4 {
            v.push(e.raw.3);
        }
        proof {
            assert(v@ =~= e.raw_bytes().take(n as int));
        }
        Ok(v)
    } else {
        let off32 = u32_of_raw(e, order);
        let off = off32 as usize;
        if data.len() as u64 >= n && off as u64 <= data.len() as u64 - n {
            let end = off + n as usize;
            subvec(data, off, end)
        } else {
            Err(ExifError::OutOfBounds)
        }
    }
}

/// The entry count a directory at `offset` declares.
pub open spec fn spec_dir_count(data: Seq<u8>, order: ByteOrder, offset: int) -> int {
    spec_u16_at(data, offset, order) as int
}

/// The `k`-th raw entry of the directory at `offset`.
pub open spec fn spec_dir_entry(data: Seq<u8>, order: ByteOrder, offset: int, k: int) -> RawEntry {
    spec_entry_at(data, order, offset + 2 + 12 * k)
}

/// The next-directory pointer stored after the entries.
pub open spec fn spec_dir_next(data: Seq<u8>, order: ByteOrder, offset: int) -> u32 {
    spec_u32_at(data, offset + 2 + 12 * spec_dir_count(data, order, offset), order)
}

/// A leaf directory: none of its entries is a sub-directory pointer
/// and it chains to no further directory.
pub open spec fn spec_leaf_dir(data: Seq<u8>, order: ByteOrder, offset: int, kind: IfdKind) -> bool {
    &&& forall|k: int|
        0 <= k < spec_dir_count(data, order, offset) ==> spec_subifd_target(
            kind,
            spec_dir_entry(data, order, offset, k).tag_id,
        ) is None
    &&& spec_dir_next(data, order, offset) == 0
}

/// `f` is exactly the decoded form of entry `e` of directory `kind`:
/// same tag identity, the typed value of the entry's bytes, and the
/// registry's name and unit.
pub open spec fn field_matches_entry(
    f: Field,
    data: Seq<u8>,
    order: ByteOrder,
    kind: IfdKind,
    e: RawEntry,
) -> bool {
    &&& spec_value_bytes(data, order, e) is Some
    &&& f.ifd == kind
    &&& f.tag_id == e.tag_id
    &&& f.value@ == spec_decode(e.type_code, spec_value_bytes(data, order, e).unwrap(), order)
    &&& opt_str_view(f.tag_name) == spec_tag_name(kind, e.tag_id)
    &&& opt_str_view(f.unit_hint) == spec_tag_unit(kind, e.tag_id)
}

/// A value that fits in four bytes is read inline from the entry
/// itself, never through a pointer; a longer value is read only
/// through the offset stored in those four bytes.
pub proof fn lemma_value_location(data: Seq<u8>, order: ByteOrder, e: RawEntry)
    ensures
        byte_len(e.type_code, e.count) <= 4 ==> spec_value_bytes(data, order, e) == Some(
            e.raw_bytes().take(byte_len(e.type_code, e.count) as int),
        ),
        byte_len(e.type_code, e.count) > 4 ==> (spec_value_bytes(data, order, e) matches Some(b)
            ==> b == data.subrange(
            spec_u32_at(e.raw_bytes(), 0, order) as int,
            spec_u32_at(e.raw_bytes(), 0, order) + byte_len(e.type_code, e.count),
        )),
{
}

/// The view of an optional owned string.
pub open spec fn opt_str_view(o: Option<String>) -> Option<Seq<char>> {
    match o {
        Some(s) => Some(s@),
        None => None,
    }
}

/// Which nested directory a tag points at, if it is one of the three
/// sub-directory pointer tags of the primary and photo directories.
pub open spec fn spec_subifd_target(kind: IfdKind, tag: u16) -> Option<IfdKind> {
    if kind == IfdKind::Primary || kind == IfdKind::Exif {
        if tag == 0x8769 {
            Some(IfdKind::Exif)
        } else if tag == 0x8825 {
            Some(IfdKind::Gps)
        } else if tag == 0xA005 {
            Some(IfdKind::Interop)
        } else {
            None
        }
    } else {
        None
    }
}

/// Executable twin of `spec_subifd_target`.
fn subifd_target(kind: IfdKind, tag: u16) -> (r: Option<IfdKind>)
    ensures
        r == spec_subifd_target(kind, tag),
{
    if kind == IfdKind::Primary || kind == IfdKind::Exif {
        if tag == 0x8769 {
            Some(IfdKind::Exif)
        } else if tag == 0x8825 {
            Some(IfdKind::Gps)
        } else if tag == 0xA005 {
            Some(IfdKind::Interop)
        } else {
            None
        }
    } else {
        None
    }
}

/// Decode one ordinary entry into a `Field`.
///
/// The field keeps the entry's numeric tag identity and directory kind
/// whether or not the registry knows the tag: unknown tags are never
/// dropped or renumbered.
pub fn decode_entry_field(data: &Vec<u8>, order: ByteOrder, kind: IfdKind, e: &RawEntry) -> (r:
    Result<Field, ExifError>)
    ensures
        match spec_value_bytes(data@, order, *e) {
            Some(b) => (r matches Ok(f) && field_matches_entry(f, data@, order, kind, *e)),
            None => r == Err::<Field, ExifError>(ExifError::OutOfBounds),
        },
{
    let bytes = match fetch_value_bytes(data, order, e) {
        Ok(v) => v,
        Err(err) => {
            return Err(err);
        },
    };
    let value = decode_value(e.type_code, &bytes, order);
    let name: Option<String> = match tag_name(kind, e.tag_id) {
        Some(s) => Some(s.to_string()),
        None => None,
    };
    let unit: Option<String> = match tag_unit(kind, e.tag_id) {
        Some(s) => Some(s.to_string()),
        None => None,
    };
    Ok(Field { ifd: kind, tag_id: e.tag_id, tag_name: name, value, unit_hint: unit })
}

/// `a` is `b` with zero or more elements appended.
pub open spec fn seq_extends<A>(a: Seq<A>, b: Seq<A>) -> bool {
    b.len() <= a.len() && forall|i: int| 0 <= i < b.len() ==> a[i] == b[i]
}

/// Extension keeps membership.
proof fn lemma_extends_contains(a: Seq<usize>, b: Seq<usize>, x: usize)
    requires
        seq_extends(a, b),
        b.contains(x),
    ensures
        a.contains(x),
{
    let i = choose|i: int| 0 <= i < b.len() && b[i] == x;
    assert(a[i] == x);
}

/// The directory at `offset` fits in the buffer: its count, all its
/// entries, and its next pointer.
pub open spec fn spec_dir_in_bounds(data: Seq<u8>, order: ByteOrder, offset: int) -> bool {
    &&& offset + 2 <= data.len()
    &&& offset + 2 + 12 * spec_dir_count(data, order, offset) + 4 <= data.len()
}

/// Every entry of the directory is an ordinary, decodable one: no
/// sub-directory pointers, and every value's bytes are in bounds.
pub open spec fn spec_plain_dir(data: Seq<u8>, order: ByteOrder, offset: int, kind: IfdKind) -> bool {
    forall|k: int|
        0 <= k < spec_dir_count(data, order, offset) ==> spec_subifd_target(
            kind,
            spec_dir_entry(data, order, offset, k).tag_id,
        ) is None && spec_value_bytes(data, order, spec_dir_entry(data, order, offset, k)) is Some
}

/// Walk one directory at `offset` and everything it points at.
///
/// Every visit records its offset first: a repeated offset is
/// `CyclicDirectory`, nesting past `MAX_DEPTH` is `DirectoryTooDeep`,
/// and a directory that crosses the buffer is `OutOfBounds`. Fields
/// are appended to `out` in traversal order; the three sub-directory
/// pointer tags are followed, not emitted. The next-directory pointer
/// is honored only at the primary level, where it chains to the
/// thumbnail directories.
///
/// Success is owed, and every appended field pinned, for each
/// directory shape the contract names: a leaf directory, one ending
/// in a pointer to a fresh leaf sub-directory, and one chaining to a
/// fresh leaf thumbnail directory. A decodable directory that chains
/// back to itself is owed `CyclicDirectory`; one holding a pointer
/// entry at the maximum depth is owed `DirectoryTooDeep`.
#[verifier::loop_isolation(false)]
#[verifier::rlimit(80)]
pub fn walk_ifd(
    data: &Vec<u8>,
    order: ByteOrder,
    offset: usize,
    kind: IfdKind,
    depth: usize,
    visited: &mut Vec<usize>,
    out: &mut Vec<Field>,
) -> (r: Result<(), ExifError>)
    requires
        visited_inv(old(visited)@, data@.len() as int),
    ensures
        visited_inv(final(visited)@, data@.len() as int),
        seq_extends(final(visited)@, old(visited)@),
        seq_extends(final(out)@, old(out)@),
        r matches Err(e) ==> (e == ExifError::OutOfBounds || e == ExifError::CyclicDirectory || e
            == ExifError::DirectoryTooDeep),
        depth > MAX_DEPTH ==> r == Err::<(), ExifError>(ExifError::DirectoryTooDeep)
            && final(out)@ == old(out)@,
        depth <= MAX_DEPTH && old(visited)@.contains(offset) ==> r == Err::<(), ExifError>(
            ExifError::CyclicDirectory,
        ) && final(out)@ == old(out)@,
        (r is Ok && depth <= MAX_DEPTH && !old(visited)@.contains(offset) && spec_leaf_dir(
            data@,
            order,
            offset as int,
            kind,
        )) ==> final(out)@.len() == old(out)@.len() + spec_dir_count(data@, order, offset as int)
            && forall|k: int|
            0 <= k < spec_dir_count(data@, order, offset as int) ==> field_matches_entry(
                final(out)@[old(out)@.len() + k],
                data@,
                order,
                kind,
                spec_dir_entry(data@, order, offset as int, k),
            ),
        (depth <= MAX_DEPTH && !old(visited)@.contains(offset) && offset != 0 && (kind
            == IfdKind::Primary || kind == IfdKind::Thumbnail) && spec_dir_in_bounds(
            data@,
            order,
            offset as int,
        ) && spec_plain_dir(data@, order, offset as int, kind) && spec_dir_next(
            data@,
            order,
            offset as int,
        ) == offset) ==> r == Err::<(), ExifError>(ExifError::CyclicDirectory),
        (depth <= MAX_DEPTH && !old(visited)@.contains(offset) && spec_dir_in_bounds(
            data@,
            order,
            offset as int,
        ) && spec_plain_dir(data@, order, offset as int, kind) && spec_leaf_dir(
            data@,
            order,
            offset as int,
            kind,
        )) ==> r is Ok,
        (depth < MAX_DEPTH && !old(visited)@.contains(offset) && spec_trailing_subdir(
            data@,
            order,
            offset as int,
            kind,
            old(visited)@,
        )) ==> r is Ok && spec_trailing_subdir_fields(
            data@,
            order,
            offset as int,
            kind,
            old(out)@.len() as int,
            final(out)@,
        ),
        (depth == MAX_DEPTH && !old(visited)@.contains(offset) && spec_trailing_pointer(
            data@,
            order,
            offset as int,
            kind,
        )) ==> r == Err::<(), ExifError>(ExifError::DirectoryTooDeep),
        (depth <= MAX_DEPTH && !old(visited)@.contains(offset) && spec_chained_dirs(
            data@,
            order,
            offset as int,
            kind,
            old(visited)@,
        )) ==> r is Ok && spec_chained_fields(
            data@,
            order,
            offset as int,
            kind,
            old(out)@.len() as int,
            final(out)@,
        ),
    decreases data@.len() - visited@.len(),
{
    // The binding keeps the buffer length's machine-word bound in
    // scope for the offset arithmetic below.
    let _dlen = data.len();
    if depth > MAX_DEPTH {
        return Err(ExifError::DirectoryTooDeep);
    }
    if contains_offset(visited, offset) {
        return Err(ExifError::CyclicDirectory);
    }
    let count = match read_u16(data, offset, order) {
        Ok(v) => v,
        Err(e) => {
            return Err(e);
        },
    };
    proof {
        lemma_push_distinct(visited@, offset, data@.len() as int);
    }
    visited.push(offset);
    proof {
        assert(visited@[visited@.len() - 1] == offset);
    }
    let nentries = count as usize;
    let base = offset + 2;
    if data.len() - base < 12 * nentries + 4 {
        return Err(ExifError::OutOfBounds);
    }
    let mut i: usize = 0;
    while i < nentries
        invariant
            0 <= i <= nentries,
            nentries == spec_dir_count(data@, order, offset as int),
            visited_inv(visited@, data@.len() as int),
            old(visited)@.len() < visited@.len(),
            seq_extends(visited@, old(visited)@),
            visited@.contains(offset),
            seq_extends(out@, old(out)@),
            (forall|k: int|
                0 <= k < i ==> spec_subifd_target(
                    kind,
                    spec_dir_entry(data@, order, offset as int, k).tag_id,
                ) is None) ==> out@.len() == old(out)@.len() + i && forall|k: int|
                0 <= k < i ==> field_matches_entry(
                    out@[old(out)@.len() + k],
                    data@,
                    order,
                    kind,
                    spec_dir_entry(data@, order, offset as int, k),
                ),
            (spec_trailing_subdir(data@, order, offset as int, kind, old(visited)@) && i
                <= nentries - 1) ==> visited@ == old(visited)@.push(offset),
            (depth == MAX_DEPTH && spec_trailing_pointer(data@, order, offset as int, kind))
                ==> i <= nentries - 1,
            spec_chained_dirs(data@, order, offset as int, kind, old(visited)@) ==> visited@
                == old(visited)@.push(offset),
            (spec_trailing_subdir(data@, order, offset as int, kind, old(visited)@) && i
                == nentries) ==> spec_trailing_subdir_fields(
                data@,
                order,
                offset as int,
                kind,
                old(out)@.len() as int,
                out@,
            ),
        decreases nentries - i,
    {
        let pos = base + 12 * i;
        let entry = read_entry(data, order, pos);
        proof {
            assert(entry == spec_dir_entry(data@, order, offset as int, i as int));
        }
        match subifd_target(kind, entry.tag_id) {
            Some(subkind) => {
                let sub_off32 = u32_of_raw(&entry, order);
                proof {
                    lemma_visited_bound(visited@, data@.len() as int);
                    if spec_trailing_subdir(data@, order, offset as int, kind, old(visited)@) {
                        let count = spec_dir_count(data@, order, offset as int);
                        let sub = spec_entry_target(data@, order, offset as int, count - 1);
                        assert(i == count - 1);
                        assert(sub_off32 as usize == sub as usize);
                        lemma_push_not_contains(old(visited)@, offset, sub as usize);
                        assert(!visited@.contains(sub_off32 as usize));
                    }
                }
                let ghost vpre = visited@;
                match walk_ifd(data, order, sub_off32 as usize, subkind, depth + 1, visited, out) {
                    Ok(()) => {
                        proof {
                            lemma_extends_contains(visited@, vpre, offset);
                        }
                    },
                    Err(e) => {
                        return Err(e);
                    },
                }
            },
            None => {
                let field = match decode_entry_field(data, order, kind, &entry) {
                    Ok(f) => f,
                    Err(e) => {
                        return Err(e);
                    },
                };
                out.push(field);
            },
        }
        i = i + 1;
    }
    let next = match read_u32(data, base + 12 * nentries, order) {
        Ok(v) => v,
        Err(e) => {
            return Err(e);
        },
    };
    if next != 0 && (matches!(kind, IfdKind::Primary) || matches!(kind, IfdKind::Thumbnail)) {
        proof {
            lemma_visited_bound(visited@, data@.len() as int);
            if spec_chained_dirs(data@, order, offset as int, kind, old(visited)@) {
                lemma_push_not_contains(old(visited)@, offset, next as usize);
                assert(!visited@.contains(next as usize));
            }
        }
        match walk_ifd(data, order, next as usize, IfdKind::Thumbnail, depth, visited, out) {
            Ok(()) => Ok(()),
            Err(e) => Err(e),
        }
    } else {
        Ok(())
    }
}

/// The byte order a TIFF block declares in its first two bytes.
pub open spec fn spec_header_order(s: Seq<u8>) -> Option<ByteOrder> {
    if s.len() >= 2 && s[0] == 0x49 && s[1] == 0x49 {
        Some(ByteOrder::Little)
    } else if s.len() >= 2 && s[0] == 0x4D && s[1] == 0x4D {
        Some(ByteOrder::Big)
    } else {
        None
    }
}

/// A well-formed TIFF header: a byte-order marker, room for the eight
/// header bytes, and the magic number 42 under that order.
pub open spec fn spec_header_ok(s: Seq<u8>) -> bool {
    &&& spec_header_order(s) is Some
    &&& s.len() >= 8
    &&& spec_u16_at(s, 2, spec_header_order(s).unwrap()) == 42
}

/// A parsed document agrees with its block on the primary directory
/// for each structural shape the walk's contract covers: a leaf
/// directory decodes to exactly its entry list; one ending in a
/// sub-directory pointer adds the nested leaf directory's fields; one
/// chaining onward adds the thumbnail directory's fields.
pub open spec fn spec_doc_fields_ok(block: Seq<u8>, doc: ExifDocument) -> bool {
    let order = spec_header_order(block).unwrap();
    let first = spec_u32_at(block, 4, order) as int;
    &&& spec_leaf_dir(block, order, first, IfdKind::Primary) ==> doc.fields@.len()
        == spec_dir_count(block, order, first) && forall|k: int|
        0 <= k < spec_dir_count(block, order, first) ==> field_matches_entry(
            doc.fields@[k],
            block,
            order,
            IfdKind::Primary,
            spec_dir_entry(block, order, first, k),
        )
    &&& spec_trailing_subdir(block, order, first, IfdKind::Primary, Seq::<usize>::empty())
        ==> spec_trailing_subdir_fields(block, order, first, IfdKind::Primary, 0, doc.fields@)
    &&& spec_chained_dirs(block, order, first, IfdKind::Primary, Seq::<usize>::empty())
        ==> spec_chained_fields(block, order, first, IfdKind::Primary, 0, doc.fields@)
}

/// The directory offset stored in entry `k`'s four value bytes.
pub open spec fn spec_entry_target(data: Seq<u8>, order: ByteOrder, offset: int, k: int) -> int {
    spec_u32_at(spec_dir_entry(data, order, offset, k).raw_bytes(), 0, order) as int
}

/// A directory whose last entry is a sub-directory pointer and whose
/// other entries are ordinary and decodable; the nested directory is
/// fresh (unvisited, not this directory), in bounds, decodable, and a
/// leaf; the outer directory chains no further.
pub open spec fn spec_trailing_subdir(
    data: Seq<u8>,
    order: ByteOrder,
    offset: int,
    kind: IfdKind,
    visited: Seq<usize>,
) -> bool {
    let count = spec_dir_count(data, order, offset);
    let last = spec_dir_entry(data, order, offset, count - 1);
    let sub = spec_entry_target(data, order, offset, count - 1);
    let subkind = spec_subifd_target(kind, last.tag_id).unwrap();
    &&& count >= 1
    &&& spec_dir_in_bounds(data, order, offset)
    &&& spec_dir_next(data, order, offset) == 0
    &&& forall|k: int|
        0 <= k < count - 1 ==> spec_subifd_target(
            kind,
            spec_dir_entry(data, order, offset, k).tag_id,
        ) is None && spec_value_bytes(data, order, spec_dir_entry(data, order, offset, k)) is Some
    &&& spec_subifd_target(kind, last.tag_id) is Some
    &&& !visited.contains(sub as usize)
    &&& sub != offset
    &&& spec_dir_in_bounds(data, order, sub)
    &&& spec_plain_dir(data, order, sub, subkind)
    &&& spec_leaf_dir(data, order, sub, subkind)
}

/// What such a walk appends from `base` on: one field per ordinary
/// entry under the outer kind, then the sub-directory's fields under
/// the pointed kind — and nothing for the pointer entry itself.
pub open spec fn spec_trailing_subdir_fields(
    data: Seq<u8>,
    order: ByteOrder,
    offset: int,
    kind: IfdKind,
    base: int,
    out: Seq<Field>,
) -> bool {
    let count = spec_dir_count(data, order, offset);
    let sub = spec_entry_target(data, order, offset, count - 1);
    let subkind = spec_subifd_target(
        kind,
        spec_dir_entry(data, order, offset, count - 1).tag_id,
    ).unwrap();
    &&& out.len() == base + (count - 1) + spec_dir_count(data, order, sub)
    &&& forall|k: int|
        0 <= k < count - 1 ==> field_matches_entry(
            out[base + k],
            data,
            order,
            kind,
            spec_dir_entry(data, order, offset, k),
        )
    &&& forall|m: int|
        0 <= m < spec_dir_count(data, order, sub) ==> field_matches_entry(
            out[base + (count - 1) + m],
            data,
            order,
            subkind,
            spec_dir_entry(data, order, sub, m),
        )
}

/// A directory whose last entry is a sub-directory pointer, its other
/// entries ordinary and decodable; nothing is asked of the pointed-to
/// directory.
pub open spec fn spec_trailing_pointer(data: Seq<u8>, order: ByteOrder, offset: int, kind: IfdKind) -> bool {
    let count = spec_dir_count(data, order, offset);
    &&& count >= 1
    &&& spec_dir_in_bounds(data, order, offset)
    &&& forall|k: int|
        0 <= k < count - 1 ==> spec_subifd_target(
            kind,
            spec_dir_entry(data, order, offset, k).tag_id,
        ) is None && spec_value_bytes(data, order, spec_dir_entry(data, order, offset, k)) is Some
    &&& spec_subifd_target(kind, spec_dir_entry(data, order, offset, count - 1).tag_id) is Some
}

/// A primary-level directory, ordinary and decodable throughout,
/// whose next-directory pointer leads to a fresh leaf directory: the
/// simplest thumbnail chain.
pub open spec fn spec_chained_dirs(
    data: Seq<u8>,
    order: ByteOrder,
    offset: int,
    kind: IfdKind,
    visited: Seq<usize>,
) -> bool {
    let next = spec_dir_next(data, order, offset) as int;
    &&& (kind == IfdKind::Primary || kind == IfdKind::Thumbnail)
    &&& spec_dir_in_bounds(data, order, offset)
    &&& spec_plain_dir(data, order, offset, kind)
    &&& next != 0
    &&& !visited.contains(next as usize)
    &&& next != offset
    &&& spec_dir_in_bounds(data, order, next)
    &&& spec_plain_dir(data, order, next, IfdKind::Thumbnail)
    &&& spec_leaf_dir(data, order, next, IfdKind::Thumbnail)
}

/// What such a walk appends from `base` on: this directory's fields,
/// then the chained directory's fields as thumbnail fields.
pub open spec fn spec_chained_fields(
    data: Seq<u8>,
    order: ByteOrder,
    offset: int,
    kind: IfdKind,
    base: int,
    out: Seq<Field>,
) -> bool {
    let count = spec_dir_count(data, order, offset);
    let next = spec_dir_next(data, order, offset) as int;
    &&& out.len() == base + count + spec_dir_count(data, order, next)
    &&& forall|k: int|
        0 <= k < count ==> field_matches_entry(
            out[base + k],
            data,
            order,
            kind,
            spec_dir_entry(data, order, offset, k),
        )
    &&& forall|m: int|
        0 <= m < spec_dir_count(data, order, next) ==> field_matches_entry(
            out[base + count + m],
            data,
            order,
            IfdKind::Thumbnail,
            spec_dir_entry(data, order, next, m),
        )
}

/// An element absent from a sequence and different from a pushed one
/// is absent from the extended sequence.
proof fn lemma_push_not_contains(v: Seq<usize>, x: usize, y: usize)
    requires
        !v.contains(y),
        y != x,
    ensures
        !v.push(x).contains(y),
{
    if v.push(x).contains(y) {
        let j = choose|j: int| 0 <= j < v.push(x).len() && v.push(x)[j] == y;
        if j < v.len() {
            assert(v[j] == y);
        }
    }
}

/// A block this predicate accepts is owed a successful parse: a
/// well-formed header whose first directory is in bounds, free of
/// sub-directory pointers, decodable, and final.
pub open spec fn spec_block_decodes(block: Seq<u8>) -> bool {
    &&& spec_header_ok(block)
    &&& {
        let order = spec_header_order(block).unwrap();
        let first = spec_u32_at(block, 4, order) as int;
        &&& spec_dir_in_bounds(block, order, first)
        &&& spec_plain_dir(block, order, first, IfdKind::Primary)
        &&& spec_leaf_dir(block, order, first, IfdKind::Primary)
    }
}

/// A block whose first directory ends in one sub-directory pointer to
/// a fresh leaf directory, the rest of its entries ordinary and
/// decodable: such a block is owed success, with the nested fields
/// carrying the pointed directory's kind.
pub open spec fn spec_block_with_subdir(block: Seq<u8>) -> bool {
    &&& spec_header_ok(block)
    &&& {
        let order = spec_header_order(block).unwrap();
        let first = spec_u32_at(block, 4, order) as int;
        spec_trailing_subdir(block, order, first, IfdKind::Primary, Seq::<usize>::empty())
    }
}

/// A well-formed header whose first directory is ordinary and
/// decodable and chains to a fresh leaf thumbnail directory.
pub open spec fn spec_block_with_chain(block: Seq<u8>) -> bool {
    &&& spec_header_ok(block)
    &&& {
        let order = spec_header_order(block).unwrap();
        let first = spec_u32_at(block, 4, order) as int;
        spec_chained_dirs(block, order, first, IfdKind::Primary, Seq::<usize>::empty())
    }
}

/// A well-formed header whose first directory is ordinary and
/// decodable but chains back to itself: the canonical cyclic input.
pub open spec fn spec_block_self_looping(block: Seq<u8>) -> bool {
    &&& spec_header_ok(block)
    &&& {
        let order = spec_header_order(block).unwrap();
        let first = spec_u32_at(block, 4, order) as int;
        &&& first != 0
        &&& spec_dir_in_bounds(block, order, first)
        &&& spec_plain_dir(block, order, first, IfdKind::Primary)
        &&& spec_dir_next(block, order, first) == first
    }
}

/// Parse a whole TIFF-structured block: header, then the directory
/// chain starting at the header's first-directory offset.
pub fn parse_tiff_block(block: &Vec<u8>, container: ContainerKind) -> (r: Result<
    ExifDocument,
    ExifError,
>)
    ensures
        !spec_header_ok(block@) ==> r == Err::<ExifDocument, ExifError>(ExifError::MalformedHeader),
        r matches Ok(doc) ==> spec_header_ok(block@) && doc.container == container
            && doc.byte_order == spec_header_order(block@).unwrap(),
        r matches Err(e) ==> ((e == ExifError::MalformedHeader && !spec_header_ok(block@)) || e
            == ExifError::OutOfBounds || e == ExifError::CyclicDirectory || e
            == ExifError::DirectoryTooDeep),
        r matches Ok(doc) ==> spec_doc_fields_ok(block@, doc),
        spec_block_decodes(block@) ==> r is Ok,
        spec_block_with_subdir(block@) ==> r is Ok,
        spec_block_with_chain(block@) ==> r is Ok,
        spec_block_self_looping(block@) ==> r == Err::<ExifDocument, ExifError>(
            ExifError::CyclicDirectory,
        ),
{
    let order = if block.len() >= 2 && block[0] == 0x49 && block[1] == 0x49 {
        ByteOrder::Little
    } else if block.len() >= 2 && block[0] == 0x4D && block[1] == 0x4D {
        ByteOrder::Big
    } else {
        return Err(ExifError::MalformedHeader);
    };
    if block.len() < 8 {
        return Err(ExifError::MalformedHeader);
    }
    let mut cur = ByteCursor::new(block, order);
    cur.seek_absolute(2);
    let magic = match cur.read_u16() {
        Ok(v) => v,
        Err(_) => {
            return Err(ExifError::MalformedHeader);
        },
    };
    if magic != 42 {
        return Err(ExifError::MalformedHeader);
    }
    let first = match cur.read_u32() {
        Ok(v) => v,
        Err(_) => {
            return Err(ExifError::MalformedHeader);
        },
    };
    let mut visited: Vec<usize> = Vec::new();
    let mut fields: Vec<Field> = Vec::new();
    match walk_ifd(block, order, first as usize, IfdKind::Primary, 0, &mut visited, &mut fields) {
        Ok(()) => Ok(ExifDocument { container, byte_order: order, fields }),
        Err(e) => Err(e),
    }
}

} // verus!
