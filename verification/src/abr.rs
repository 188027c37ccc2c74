//! The outer layout of an Adobe Brush (ABR, version 6 and later) file: a
//! header, then a run of `8BIM` sections, each a four-byte key, a big-endian
//! 32-bit length and that many bytes of payload, padded to a multiple of four
//! bytes when more data follows.
//!
//! The payloads of the `desc`, `phry`, `samp` and `patt` sections are kept,
//! by kind, in the order they appear; sections with other keys are skipped.

use vstd::prelude::*;

verus! {

/// Why an ABR file could not be read.
#[derive(Clone, Copy, Debug, PartialEq, Eq, Structural)]
pub enum AbrError {
    /// The data ended inside the header or inside a section.
    UnexpectedEnd,
    /// A section did not start with the `8BIM` signature.
    UnsupportedSignature,
}

/// The header of an ABR file: its version and sub-version, both big-endian.
#[derive(Clone, Copy, Debug, PartialEq, Eq, Structural)]
pub struct AbrHeader {
    pub version: u16,
    pub sub_version: u16,
}

/// A section of an ABR file: its key and its payload.
pub struct AbrSection {
    pub key: Vec<u8>,
    pub data: Vec<u8>,
}

/// The view of a section: its key and payload bytes.
pub open spec fn section_view(s: AbrSection) -> (Seq<u8>, Seq<u8>) {
    (s.key@, s.data@)
}

/// A parsed ABR file: its header and the payloads of its brush descriptor
/// (`desc`), hierarchy (`phry`), sampled tip (`samp`) and pattern (`patt`)
/// sections, each kind in file order.
pub struct Abr {
    pub header: AbrHeader,
    pub descriptor_sections: Vec<Vec<u8>>,
    pub hierarchy_sections: Vec<Vec<u8>>,
    pub sample_sections: Vec<Vec<u8>>,
    pub pattern_sections: Vec<Vec<u8>>,
}

/// The big-endian value of four bytes.
pub open spec fn be_u32(b: Seq<u8>, i: int) -> nat {
    (b[i] as nat) * 0x1000000 + (b[i + 1] as nat) * 0x10000 + (b[i + 2] as nat) * 0x100 + (b[i
        + 3] as nat)
}

/// The big-endian value of two bytes.
pub open spec fn be_u16(b: Seq<u8>, i: int) -> nat {
    (b[i] as nat) * 0x100 + (b[i + 1] as nat)
}

/// The signature that every section starts with.
pub open spec fn signature_8bim() -> Seq<u8> {
    seq![0x38u8, 0x42u8, 0x49u8, 0x4du8]
}

/// The first multiple of four at or after `pos`.
pub open spec fn align4(pos: int) -> int {
    ((pos + 3) / 4) * 4
}

/// The sections of `input` from `pos` to its end, or the error that ends
/// reading them.
pub open spec fn sections_from(input: Seq<u8>, pos: int) -> Result<
    Seq<(Seq<u8>, Seq<u8>)>,
    AbrError,
>
    decreases input.len() - pos,
{
    if pos < 0 || pos >= input.len() {
        Ok(Seq::empty())
    } else if input.len() - pos < 4 {
        Err(AbrError::UnexpectedEnd)
    } else if input.subrange(pos, pos + 4) != signature_8bim() {
        Err(AbrError::UnsupportedSignature)
    } else if input.len() - pos < 12 {
        Err(AbrError::UnexpectedEnd)
    } else if input.len() - (pos + 12) < be_u32(input, pos + 8) {
        Err(AbrError::UnexpectedEnd)
    } else {
        let end = pos + 12 + be_u32(input, pos + 8);
        let section = (input.subrange(pos + 4, pos + 8), input.subrange(pos + 12, end));
        let next = if end == input.len() { end } else { align4(end) };
        if next > input.len() {
            Err(AbrError::UnexpectedEnd)
        } else {
            match sections_from(input, next) {
                Ok(rest) => Ok(seq![section] + rest),
                Err(e) => Err(e),
            }
        }
    }
}

/// The payloads of the sections with key `key`, in order.
pub open spec fn payloads_with_key(sections: Seq<(Seq<u8>, Seq<u8>)>, key: Seq<u8>) -> Seq<
    Seq<u8>,
>
    decreases sections.len(),
{
    if sections.len() == 0 {
        Seq::empty()
    } else {
        let rest = payloads_with_key(sections.drop_last(), key);
        if sections.last().0 == key {
            rest.push(sections.last().1)
        } else {
            rest
        }
    }
}

pub open spec fn key_desc() -> Seq<u8> {
    seq![0x64u8, 0x65u8, 0x73u8, 0x63u8]
}

pub open spec fn key_phry() -> Seq<u8> {
    seq![0x70u8, 0x68u8, 0x72u8, 0x79u8]
}

pub open spec fn key_samp() -> Seq<u8> {
    seq![0x73u8, 0x61u8, 0x6du8, 0x70u8]
}

pub open spec fn key_patt() -> Seq<u8> {
    seq![0x70u8, 0x61u8, 0x74u8, 0x74u8]
}

/// What `Abr::parse` gives for `input`: the header from its first four
/// bytes, then the sections after it sorted by kind.
pub open spec fn abr_spec(input: Seq<u8>) -> Result<
    (AbrHeader, Seq<Seq<u8>>, Seq<Seq<u8>>, Seq<Seq<u8>>, Seq<Seq<u8>>),
    AbrError,
> {
    if input.len() < 4 {
        Err(AbrError::UnexpectedEnd)
    } else {
        let header = AbrHeader {
            version: be_u16(input, 0) as u16,
            sub_version: be_u16(input, 2) as u16,
        };
        match sections_from(input, 4) {
            Err(e) => Err(e),
            Ok(sections) => Ok(
                (
                    header,
                    payloads_with_key(sections, key_desc()),
                    payloads_with_key(sections, key_phry()),
                    payloads_with_key(sections, key_samp()),
                    payloads_with_key(sections, key_patt()),
                ),
            ),
        }
    }
}

/// The view of a parsed file.
pub open spec fn abr_view(a: Abr) -> (
    AbrHeader,
    Seq<Seq<u8>>,
    Seq<Seq<u8>>,
    Seq<Seq<u8>>,
    Seq<Seq<u8>>,
) {
    (
        a.header,
        a.descriptor_sections@.map_values(|v: Vec<u8>| v@),
        a.hierarchy_sections@.map_values(|v: Vec<u8>| v@),
        a.sample_sections@.map_values(|v: Vec<u8>| v@),
        a.pattern_sections@.map_values(|v: Vec<u8>| v@),
    )
}

/// Copies `input[from..to]`.
fn copy_range(input: &[u8], from: usize, to: usize) -> (r: Vec<u8>)
    requires
        from <= to <= input@.len(),
    ensures
        r@ == input@.subrange(from as int, to as int),
{
    let mut r: Vec<u8> = Vec::new();
    let mut i = from;
    while i < to
        invariant
            from <= i <= to <= input@.len(),
            r@ == input@.subrange(from as int, i as int),
        decreases to - i,
    {
        r.push(input[i]);
        proof {
            assert(r@ =~= input@.subrange(from as int, i + 1));
        }
        i = i + 1;
    }
    r
}

/// Reads a big-endian `u32` at `i`.
fn read_be_u32(input: &[u8], i: usize) -> (v: u32)
    requires
        i + 4 <= input@.len(),
    ensures
        v as nat == be_u32(input@, i as int),
{
    let v = (input[i] as u32) * 0x1000000 + (input[i + 1] as u32) * 0x10000 + (input[i + 2]
        as u32) * 0x100 + (input[i + 3] as u32);
    v
}

/// Whether four bytes at `i` are `8BIM`.
fn is_signature_at(input: &[u8], i: usize) -> (b: bool)
    requires
        i + 4 <= input@.len(),
    ensures
        b == (input@.subrange(i as int, i + 4) == signature_8bim()),
{
    let b = input[i] == 0x38 && input[i + 1] == 0x42 && input[i + 2] == 0x49 && input[i + 3]
        == 0x4d;
    proof {
        let w = input@.subrange(i as int, i + 4);
        if b {
            assert(w =~= signature_8bim());
        } else {
            if w == signature_8bim() {
                assert(w[0] == input@[i as int]);
                assert(w[1] == input@[i + 1]);
                assert(w[2] == input@[i + 2]);
                assert(w[3] == input@[i + 3]);
            }
        }
    }
    b
}

/// Reads the section that starts at `pos`, and where the next one starts.
fn parse_one_section(input: &[u8], pos: usize) -> (r: Result<(AbrSection, usize), AbrError>)
    requires
        pos < input@.len(),
    ensures
        match r {
            Ok((s, next)) => pos < next <= input@.len() && sections_from(input@, pos as int)
                == match sections_from(input@, next as int) {
                Ok(rest) => Ok(seq![section_view(s)] + rest),
                Err(e) => Err::<Seq<(Seq<u8>, Seq<u8>)>, AbrError>(e),
            },
            Err(e) => sections_from(input@, pos as int) == Err::<
                Seq<(Seq<u8>, Seq<u8>)>,
                AbrError,
            >(e),
        },
{
    let len = input.len();
    if len - pos < 4 {
        return Err(AbrError::UnexpectedEnd);
    }
    if !is_signature_at(input, pos) {
        return Err(AbrError::UnsupportedSignature);
    }
    if len - pos < 12 {
        return Err(AbrError::UnexpectedEnd);
    }
    let n = read_be_u32(input, pos + 8) as usize;
    if len - (pos + 12) < n {
        return Err(AbrError::UnexpectedEnd);
    }
    let end = pos + 12 + n;
    let key = copy_range(input, pos + 4, pos + 8);
    let data = copy_range(input, pos + 12, end);
    let next: usize = if end == len {
        end
    } else if end % 4 == 0 {
        proof {
            lemma_align4(end as int);
        }
        end
    } else {
        let rounded = end - end % 4;
        proof {
            lemma_align4(end as int);
        }
        if len - rounded < 4 {
            return Err(AbrError::UnexpectedEnd);
        }
        rounded + 4
    };
    Ok((AbrSection { key, data }, next))
}

proof fn lemma_align4(end: int)
    requires
        end >= 0,
    ensures
        end % 4 == 0 ==> align4(end) == end,
        end % 4 != 0 ==> align4(end) == end - end % 4 + 4,
{
    assert(end % 4 == 0 ==> ((end + 3) / 4) * 4 == end) by (nonlinear_arith);
    assert(end % 4 != 0 ==> ((end + 3) / 4) * 4 == end - end % 4 + 4) by (nonlinear_arith);
}

/// Reads the sections of `input` from `pos` to its end.
pub fn parse_sections(input: &[u8], pos: usize) -> (r: Result<Vec<AbrSection>, AbrError>)
    ensures
        match r {
            Ok(v) => sections_from(input@, pos as int) == Ok::<
                Seq<(Seq<u8>, Seq<u8>)>,
                AbrError,
            >(v@.map_values(|s: AbrSection| section_view(s))),
            Err(e) => sections_from(input@, pos as int) == Err::<
                Seq<(Seq<u8>, Seq<u8>)>,
                AbrError,
            >(e),
        },
{
    let len = input.len();
    let mut sections: Vec<AbrSection> = Vec::new();
    let mut cur = pos;
    while cur < len
        invariant
            len == input@.len(),
            sections_from(input@, pos as int) == match sections_from(input@, cur as int) {
                Ok(rest) => Ok(sections@.map_values(|s: AbrSection| section_view(s)) + rest),
                Err(e) => Err::<Seq<(Seq<u8>, Seq<u8>)>, AbrError>(e),
            },
        decreases len - cur,
    {
        let ghost before = sections@.map_values(|s: AbrSection| section_view(s));
        let (section, next) = match parse_one_section(input, cur) {
            Ok(found) => found,
            Err(e) => return Err(e),
        };
        let ghost sec = section_view(section);
        sections.push(section);
        proof {
            assert(sections@.map_values(|s: AbrSection| section_view(s)) =~= before.push(sec));
            match sections_from(input@, next as int) {
                Ok(rest) => {
                    assert(before + (seq![sec] + rest) =~= before.push(sec) + rest);
                },
                Err(e) => {},
            }
        }
        cur = next;
    }
    proof {
        assert(sections@.map_values(|s: AbrSection| section_view(s)) + Seq::<
            (Seq<u8>, Seq<u8>),
        >::empty() =~= sections@.map_values(|s: AbrSection| section_view(s)));
    }
    Ok(sections)
}

/// Whether a key is the four bytes `k`.
fn key_is(key: &Vec<u8>, k0: u8, k1: u8, k2: u8, k3: u8) -> (b: bool)
    ensures
        b == (key@ == seq![k0, k1, k2, k3]),
{
    if key.len() != 4 {
        return false;
    }
    let b = key[0] == k0 && key[1] == k1 && key[2] == k2 && key[3] == k3;
    proof {
        if b {
            assert(key@ =~= seq![k0, k1, k2, k3]);
        } else if key@ == seq![k0, k1, k2, k3] {
            assert(key@[0] == k0 && key@[1] == k1 && key@[2] == k2 && key@[3] == k3);
        }
    }
    b
}

impl Abr {
    /// Reads an ABR file: its header, then its sections, keeping the
    /// payloads of the brush descriptor, hierarchy, sampled tip and pattern
    /// sections by kind, in file order.
    pub fn parse(input: &[u8]) -> (r: Result<Abr, AbrError>)
        ensures
            match r {
                Ok(a) => abr_spec(input@) == Ok::<
                    (AbrHeader, Seq<Seq<u8>>, Seq<Seq<u8>>, Seq<Seq<u8>>, Seq<Seq<u8>>),
                    AbrError,
                >(abr_view(a)),
                Err(e) => abr_spec(input@) == Err::<
                    (AbrHeader, Seq<Seq<u8>>, Seq<Seq<u8>>, Seq<Seq<u8>>, Seq<Seq<u8>>),
                    AbrError,
                >(e),
            },
    {
        if input.len() < 4 {
            return Err(AbrError::UnexpectedEnd);
        }
        let version = (input[0] as u16) * 0x100 + (input[1] as u16);
        let sub_version = (input[2] as u16) * 0x100 + (input[3] as u16);
        let header = AbrHeader { version, sub_version };
        let sections = match parse_sections(input, 4) {
            Ok(s) => s,
            Err(e) => return Err(e),
        };
        let ghost all = sections@.map_values(|s: AbrSection| section_view(s));
        let mut desc: Vec<Vec<u8>> = Vec::new();
        let mut phry: Vec<Vec<u8>> = Vec::new();
        let mut samp: Vec<Vec<u8>> = Vec::new();
        let mut patt: Vec<Vec<u8>> = Vec::new();
        let mut i: usize = 0;
        while i < sections.len()
            invariant
                i <= sections@.len(),
                all == sections@.map_values(|s: AbrSection| section_view(s)),
                desc@.map_values(|v: Vec<u8>| v@) == payloads_with_key(
                    all.subrange(0, i as int),
                    key_desc(),
                ),
                phry@.map_values(|v: Vec<u8>| v@) == payloads_with_key(
                    all.subrange(0, i as int),
                    key_phry(),
                ),
                samp@.map_values(|v: Vec<u8>| v@) == payloads_with_key(
                    all.subrange(0, i as int),
                    key_samp(),
                ),
                patt@.map_values(|v: Vec<u8>| v@) == payloads_with_key(
                    all.subrange(0, i as int),
                    key_patt(),
                ),
            decreases sections@.len() - i,
        {
            let ghost pre = all.subrange(0, i as int);
            let ghost cur = all.subrange(0, i + 1);
            proof {
                assert(cur.drop_last() =~= pre);
                assert(cur.last() == section_view(sections@[i as int]));
            }
            let key = &sections[i].key;
            let data = copy_vec(&sections[i].data);
            if key_is(key, 0x64, 0x65, 0x73, 0x63) {
                let ghost old_v = desc@.map_values(|v: Vec<u8>| v@);
                desc.push(data);
                proof {
                    assert(desc@.map_values(|v: Vec<u8>| v@) =~= old_v.push(data@));
                }
            } else if key_is(key, 0x70, 0x68, 0x72, 0x79) {
                let ghost old_v = phry@.map_values(|v: Vec<u8>| v@);
                phry.push(data);
                proof {
                    assert(phry@.map_values(|v: Vec<u8>| v@) =~= old_v.push(data@));
                }
            } else if key_is(key, 0x73, 0x61, 0x6d, 0x70) {
                let ghost old_v = samp@.map_values(|v: Vec<u8>| v@);
                samp.push(data);
                proof {
                    assert(samp@.map_values(|v: Vec<u8>| v@) =~= old_v.push(data@));
                }
            } else if key_is(key, 0x70, 0x61, 0x74, 0x74) {
                let ghost old_v = patt@.map_values(|v: Vec<u8>| v@);
                patt.push(data);
                proof {
                    assert(patt@.map_values(|v: Vec<u8>| v@) =~= old_v.push(data@));
                }
            }
            proof {
                lemma_keys_distinct();
            }
            i = i + 1;
        }
        proof {
            assert(all.subrange(0, sections@.len() as int) =~= all);
        }
        Ok(
            Abr {
                header,
                descriptor_sections: desc,
                hierarchy_sections: phry,
                sample_sections: samp,
                pattern_sections: patt,
            },
        )
    }
}

/// The four section keys differ from each other.
proof fn lemma_keys_distinct()
    ensures
        key_desc() != key_phry(),
        key_desc() != key_samp(),
        key_desc() != key_patt(),
        key_phry() != key_samp(),
        key_phry() != key_patt(),
        key_samp() != key_patt(),
{
    assert(key_desc()[0] != key_phry()[0]);
    assert(key_desc()[0] != key_samp()[0]);
    assert(key_desc()[0] != key_patt()[0]);
    assert(key_phry()[0] != key_samp()[0]);
    assert(key_phry()[1] != key_patt()[1]);
    assert(key_samp()[0] != key_patt()[0]);
}

/// Copies a byte vector.
fn copy_vec(v: &Vec<u8>) -> (r: Vec<u8>)
    ensures
        r@ == v@,
{
    let r = copy_range(v.as_slice(), 0, v.len());
    assert(v@.subrange(0, v@.len() as int) =~= v@);
    r
}

/// How many of `sections` have the key `k`.
pub open spec fn count_with_key(sections: Seq<(Seq<u8>, Seq<u8>)>, k: Seq<u8>) -> nat
    decreases sections.len(),
{
    if sections.len() == 0 {
        0
    } else {
        count_with_key(sections.drop_last(), k) + if sections.last().0 == k {
            1nat
        } else {
            0nat
        }
    }
}

/// Counting over a prefix: one more section counts one more when it has
/// the key, and a prefix counts no more than the whole.
proof fn lemma_count_prefix(sections: Seq<(Seq<u8>, Seq<u8>)>, k: Seq<u8>, j: int)
    requires
        0 <= j < sections.len(),
    ensures
        count_with_key(sections.subrange(0, j + 1), k) == count_with_key(sections.subrange(0, j), k)
            + if sections[j].0 == k {
            1nat
        } else {
            0nat
        },
        count_with_key(sections.subrange(0, j + 1), k) <= count_with_key(sections, k),
    decreases sections.len() - j,
{
    assert(sections.subrange(0, j + 1).drop_last() =~= sections.subrange(0, j));
    if j + 1 < sections.len() {
        lemma_count_prefix(sections, k, j + 1);
    } else {
        assert(sections.subrange(0, j + 1) =~= sections);
    }
}

/// The payloads kept for key `k` are one per section with that key, in
/// file order: the section at `j` with key `k` gives the entry numbered by
/// how many sections before it have that key.
proof fn lemma_payloads_one_per_section(sections: Seq<(Seq<u8>, Seq<u8>)>, k: Seq<u8>)
    ensures
        payloads_with_key(sections, k).len() == count_with_key(sections, k),
        forall|j: int|
            0 <= j < sections.len() && #[trigger] sections[j].0 == k ==> payloads_with_key(
                sections,
                k,
            )[count_with_key(sections.subrange(0, j), k) as int] == sections[j].1,
    decreases sections.len(),
{
    if sections.len() > 0 {
        let init = sections.drop_last();
        lemma_payloads_one_per_section(init, k);
        assert forall|j: int| 0 <= j < sections.len() && #[trigger] sections[j].0 == k implies payloads_with_key(
            sections,
            k,
        )[count_with_key(sections.subrange(0, j), k) as int] == sections[j].1 by {
            if j < init.len() {
                assert(sections.subrange(0, j) =~= init.subrange(0, j));
                assert(init[j] == sections[j]);
                lemma_count_prefix(init, k, j);
            } else {
                assert(sections.subrange(0, j) =~= init);
            }
        }
    }
}

/// Every section of the file is kept by its kind: when the file reads, it
/// holds the header of its first four bytes, and for each of the keys
/// `desc`, `phry`, `samp` and `patt` one payload per section with that key,
/// in file order, equal to that section's payload.
pub proof fn lemma_parse_keeps_every_section_by_kind(input: Seq<u8>)
    ensures
        abr_spec(input) matches Ok(v) ==> sections_from(input, 4) matches Ok(secs) && ({
            let keys = seq![
                seq![0x64u8, 0x65u8, 0x73u8, 0x63u8],
                seq![0x70u8, 0x68u8, 0x72u8, 0x79u8],
                seq![0x73u8, 0x61u8, 0x6du8, 0x70u8],
                seq![0x70u8, 0x61u8, 0x74u8, 0x74u8],
            ];
            let kept = seq![v.1, v.2, v.3, v.4];
            &&& v.0.version == input[0] as nat * 256 + input[1] as nat
            &&& v.0.sub_version == input[2] as nat * 256 + input[3] as nat
            &&& forall|t: int|
                0 <= t < 4 ==> (#[trigger] kept[t]).len() == count_with_key(secs, keys[t])
            &&& forall|t: int, j: int|
                0 <= t < 4 && 0 <= j < secs.len() && #[trigger] secs[j].0 == #[trigger] keys[t]
                    ==> kept[t][count_with_key(secs.subrange(0, j), keys[t]) as int] == secs[j].1
        }),
        abr_spec(input) is Err <==> (input.len() < 4 || sections_from(input, 4) is Err),
{
    if let Ok(secs) = sections_from(input, 4) {
        if input.len() >= 4 {
            lemma_payloads_one_per_section(secs, key_desc());
            lemma_payloads_one_per_section(secs, key_phry());
            lemma_payloads_one_per_section(secs, key_samp());
            lemma_payloads_one_per_section(secs, key_patt());
            let keys = seq![
                seq![0x64u8, 0x65u8, 0x73u8, 0x63u8],
                seq![0x70u8, 0x68u8, 0x72u8, 0x79u8],
                seq![0x73u8, 0x61u8, 0x6du8, 0x70u8],
                seq![0x70u8, 0x61u8, 0x74u8, 0x74u8],
            ];
            assert(keys[0] =~= key_desc());
            assert(keys[1] =~= key_phry());
            assert(keys[2] =~= key_samp());
            assert(keys[3] =~= key_patt());
        }
    }
}

} // verus!
