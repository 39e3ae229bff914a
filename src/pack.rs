//! Packing artifacts into one byte blob for a generated C++ source: each
//! artifact starts on a 16-byte boundary, and an index gives its offset and
//! length by logical name.

use vstd::prelude::*;
use crate::order::views;
use crate::text::{decimal, join, join_strings, push_decimal};

verus! {

/// Every artifact starts at a multiple of this.
pub const ALIGNMENT: usize = 16;

/// The least multiple of the alignment that is at least `n`.
pub open spec fn aligned_up(n: nat) -> nat {
    (((n + 15) / 16) * 16) as nat
}

pub open spec fn zeros(n: nat) -> Seq<u8> {
    Seq::new(n, |i: int| 0u8)
}

/// `blob` padded with zeros to the alignment.
pub open spec fn pad_blob(blob: Seq<u8>) -> Seq<u8> {
    blob + zeros((aligned_up(blob.len()) - blob.len()) as nat)
}

/// The blob that holds the first `n` artifacts.
pub open spec fn packed_blob(data: Seq<Seq<u8>>, n: int) -> Seq<u8>
    decreases n,
{
    if n <= 0 || n > data.len() {
        seq![]
    } else {
        pad_blob(packed_blob(data, n - 1) + data[n - 1])
    }
}

/// The index entry for one artifact.
pub open spec fn index_line(uri: Seq<char>, offset: nat, size: nat) -> Seq<char> {
    "indices.emplace(\""@ + uri + "\", DataRange{"@ + decimal(offset) + ", "@ + decimal(size) + "});"@
}

pub open spec fn index_lines(uris: Seq<Seq<char>>, data: Seq<Seq<u8>>) -> Seq<Seq<char>> {
    Seq::new(
        uris.len(),
        |k: int| index_line(uris[k], packed_blob(data, k).len(), data[k].len()),
    )
}

pub proof fn lemma_packed_grows(data: Seq<Seq<u8>>, k: int, n: int)
    requires
        0 <= k <= n <= data.len(),
    ensures
        packed_blob(data, k).len() <= packed_blob(data, n).len(),
        packed_blob(data, n).len() % 16 == 0,
    decreases n,
{
    if n > 0 {
        lemma_packed_grows(data, if k < n { k } else { n - 1 }, n - 1);
        let m = packed_blob(data, n - 1).len() + data[n - 1].len();
        assert(aligned_up(m) >= m && aligned_up(m) % 16 == 0) by (nonlinear_arith);
    }
}

/// Appends `data` and pads the blob with zeros to the alignment; returns
/// where `data` starts.
pub fn append_aligned(blob: &mut Vec<u8>, data: &Vec<u8>) -> (offset: usize)
    requires
        aligned_up((old(blob)@.len() + data@.len()) as nat) <= usize::MAX,
    ensures
        offset == old(blob)@.len(),
        final(blob)@ == pad_blob(old(blob)@ + data@),
{
    let offset = blob.len();
    let mut i: usize = 0;
    while i < data.len()
        invariant
            i <= data.len(),
            blob@ == old(blob)@ + data@.take(i as int),
            aligned_up((old(blob)@.len() + data@.len()) as nat) <= usize::MAX,
        decreases data.len() - i,
    {
        blob.push(data[i]);
        assert(data@.take(i + 1) =~= data@.take(i as int).push(data@[i as int]));
        i = i + 1;
    }
    assert(data@.take(i as int) =~= data@);
    let ghost joined = blob@;
    let len = blob.len();
    assert(((len + 15) / 16) * 16 >= len) by (nonlinear_arith);
    let aligned = ((len + 15) / 16) * 16;
    while blob.len() < aligned
        invariant
            len <= blob@.len() <= aligned,
            blob@ == joined + zeros((blob@.len() - len) as nat),
            joined.len() == len,
        decreases aligned - blob.len(),
    {
        blob.push(0u8);
        assert(blob@ =~= joined + zeros((blob@.len() - len) as nat));
    }
    offset
}

/// The blob and its index, for artifacts given as logical name and bytes.
pub struct PackedAssets {
    pub index: Vec<String>,
    pub bytes: Vec<u8>,
}

pub struct PackCpp {}

impl PackCpp {
    pub fn cpp_name(&self) -> (r: String)
        ensures
            r@ == "frill.cpp"@,
    {
        "frill.cpp".to_string()
    }

    pub fn h_name(&self) -> (r: String)
        ensures
            r@ == "frill.h"@,
    {
        "frill.h".to_string()
    }

    pub fn summary(&self) -> (r: String)
        ensures
            r@ == "Packing assets to "@ + "frill.h"@ + ","@ + "frill.cpp"@,
    {
        "Packing assets to ".to_string().concat(self.h_name().as_str()).concat(",").concat(self.cpp_name().as_str())
    }

    /// Lays the artifacts out one after another, each on a 16-byte
    /// boundary, and writes one index entry for each.
    pub fn pack(&self, uris: &Vec<String>, data: &Vec<Vec<u8>>) -> (r: PackedAssets)
        requires
            uris@.len() == data@.len(),
            packed_blob(data@.map_values(|d: Vec<u8>| d@), data@.len() as int).len() <= usize::MAX,
        ensures
            r.bytes@ == packed_blob(data@.map_values(|d: Vec<u8>| d@), data@.len() as int),
            views(r.index@) == index_lines(views(uris@), data@.map_values(|d: Vec<u8>| d@)),
    {
        let ghost ds = data@.map_values(|d: Vec<u8>| d@);
        let ghost us = views(uris@);
        let mut bytes: Vec<u8> = Vec::new();
        let mut index: Vec<String> = Vec::new();
        let mut k: usize = 0;
        while k < data.len()
            invariant
                k <= data.len(),
                uris@.len() == data@.len(),
                ds == data@.map_values(|d: Vec<u8>| d@),
                us == views(uris@),
                packed_blob(ds, data@.len() as int).len() <= usize::MAX,
                bytes@ == packed_blob(ds, k as int),
                views(index@) == index_lines(us, ds).take(k as int),
            decreases data.len() - k,
        {
            proof {
                lemma_packed_grows(ds, k + 1, data@.len() as int);
                let m = packed_blob(ds, k as int).len() + ds[k as int].len();
                assert(aligned_up(m) >= m) by (nonlinear_arith);
            }
            let offset = append_aligned(&mut bytes, &data[k]);
            let size = data[k].len();
            let line = index_entry(uris[k].as_str(), offset, size);
            let ghost before = index@;
            index.push(line);
            assert(views(index@) =~= views(before).push(line@));
            assert(index_lines(us, ds).take(k + 1) =~= index_lines(us, ds).take(k as int).push(
                index_lines(us, ds)[k as int],
            ));
            k = k + 1;
        }
        assert(index_lines(us, ds).take(k as int) =~= index_lines(us, ds));
        PackedAssets { index, bytes }
    }

    /// The index entries, one per line.
    pub fn index_text(&self, packed: &PackedAssets) -> (r: String)
        ensures
            r@ == join(views(packed.index@), "\n"@),
    {
        join_strings(&packed.index, "\n")
    }

    /// The blob as decimal byte values separated by commas.
    pub fn bytes_text(&self, packed: &PackedAssets) -> (r: String)
        ensures
            r@ == join(packed.bytes@.map_values(|b: u8| decimal(b as nat)), ","@),
    {
        let mut items: Vec<String> = Vec::new();
        let mut k: usize = 0;
        while k < packed.bytes.len()
            invariant
                k <= packed.bytes.len(),
                views(items@) == packed.bytes@.map_values(|b: u8| decimal(b as nat)).take(k as int),
            decreases packed.bytes.len() - k,
        {
            let mut s = String::new();
            push_decimal(&mut s, packed.bytes[k] as u64);
            let ghost before = items@;
            items.push(s);
            assert(views(items@) =~= views(before).push(s@));
            assert(views(items@) =~= packed.bytes@.map_values(|b: u8| decimal(b as nat)).take(k + 1));
            k = k + 1;
        }
        assert(packed.bytes@.map_values(|b: u8| decimal(b as nat)).take(k as int) =~= packed.bytes@.map_values(
            |b: u8| decimal(b as nat),
        ));
        join_strings(&items, ",")
    }
}

fn index_entry(uri: &str, offset: usize, size: usize) -> (r: String)
    ensures
        r@ == index_line(uri@, offset as nat, size as nat),
{
    let mut r = "indices.emplace(\"".to_string();
    r.append(uri);
    r.append("\", DataRange{");
    push_decimal(&mut r, offset as u64);
    r.append(", ");
    push_decimal(&mut r, size as u64);
    r.append("});");
    assert(r@ =~= index_line(uri@, offset as nat, size as nat));
    r
}

} // verus!
