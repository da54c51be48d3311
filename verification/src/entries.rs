//! Reading the entries of a configuration list: each entry is read on its
//! own, one bad entry refuses the whole list, and what comes out is a set.
use vstd::prelude::*;
use crate::config::{distinct_texts, TlsVersion};
use crate::net::CidrBlock;
use crate::outside::{
    cidr_of, is_header_name, is_token, mime_of, origin_of, parse_cidr, parse_header_name,
    parse_method, parse_mime, parse_origin,
};
use crate::text::lower_text;

verus! {

/// The kinds of entry that a configuration lists.
#[derive(Debug, Clone, Copy, PartialEq, Eq, Structural)]
pub enum EntryKind {
    TlsVersion,
    Origin,
    Method,
    Header,
    IpRange,
    ContentType,
}

/// What an entry was read as.
pub enum Reading {
    Text(Seq<char>),
    Version(TlsVersion),
    Block(CidrBlock),
}

/// What an entry of a kind is read as, if it can be read:
/// a TLS version by its name, an origin as `url` serialises it, a method as
/// it stands, a header name in lower case, a network as `cidr` reads it, a
/// media type as `mime` normalises it.
pub open spec fn reading(kind: EntryKind, s: Seq<char>) -> Option<Reading> {
    match kind {
        EntryKind::TlsVersion => match TlsVersion::from_text(s) {
            Some(v) => Some(Reading::Version(v)),
            None => None,
        },
        EntryKind::Origin => match origin_of(s) {
            Some(t) => Some(Reading::Text(t)),
            None => None,
        },
        EntryKind::Method => if is_token(s) {
            Some(Reading::Text(s))
        } else {
            None
        },
        EntryKind::Header => if is_header_name(s) {
            Some(Reading::Text(lower_text(s)))
        } else {
            None
        },
        EntryKind::IpRange => match cidr_of(s) {
            Some(b) => Some(Reading::Block(b)),
            None => None,
        },
        EntryKind::ContentType => match mime_of(s) {
            Some(t) => Some(Reading::Text(t)),
            None => None,
        },
    }
}

/// The first entry of a list that cannot be read, if there is one.
pub open spec fn first_rejected(kind: EntryKind, inputs: Seq<String>) -> Option<Seq<char>>
    decreases inputs.len(),
{
    if inputs.len() == 0 {
        None
    } else {
        match first_rejected(kind, inputs.drop_last()) {
            Some(bad) => Some(bad),
            None => if reading(kind, inputs.last()@) is None {
                Some(inputs.last()@)
            } else {
                None
            },
        }
    }
}

/// What the entries of a list are read as, as a set.
pub open spec fn accepted(kind: EntryKind, inputs: Seq<String>) -> Set<Reading> {
    Set::new(
        |r: Reading|
            exists|i: int| 0 <= i < inputs.len() && reading(kind, (#[trigger] inputs[i])@) == Some(r),
    )
}

/// The set that a list of texts holds.
pub open spec fn text_readings(v: Seq<String>) -> Set<Reading> {
    Set::new(|r: Reading| exists|i: int| 0 <= i < v.len() && r == Reading::Text((#[trigger] v[i])@))
}

/// The set that a list of TLS versions holds.
pub open spec fn version_readings(v: Seq<TlsVersion>) -> Set<Reading> {
    Set::new(|r: Reading| exists|i: int| 0 <= i < v.len() && r == Reading::Version(#[trigger] v[i]))
}

/// The set that a list of networks holds.
pub open spec fn block_readings(v: Seq<CidrBlock>) -> Set<Reading> {
    Set::new(|r: Reading| exists|i: int| 0 <= i < v.len() && r == Reading::Block(#[trigger] v[i]))
}

/// A list without a rejected entry has every entry readable.
pub proof fn none_rejected_all_read(kind: EntryKind, inputs: Seq<String>, i: int)
    requires
        first_rejected(kind, inputs) is None,
        0 <= i < inputs.len(),
    ensures
        reading(kind, inputs[i]@) is Some,
    decreases inputs.len(),
{
    if i < inputs.len() - 1 {
        none_rejected_all_read(kind, inputs.drop_last(), i);
    }
}

/// Whether a list of strings holds a text.
pub fn has_text(v: &Vec<String>, s: &String) -> (r: bool)
    ensures
        r == exists|i: int| 0 <= i < v@.len() && (#[trigger] v@[i])@ == s@,
{
    let mut i: usize = 0;
    while i < v.len()
        invariant
            i <= v.len(),
            forall|j: int| 0 <= j < i ==> (#[trigger] v@[j])@ != s@,
        decreases v.len() - i,
    {
        if v[i] == *s {
            return true;
        }
        i += 1;
    }
    false
}

/// Reads one entry of a kind that is held as text.
pub(crate) fn read_text_entry(kind: EntryKind, s: &str) -> (r: Option<String>)
    requires
        kind is Origin || kind is Method || kind is Header || kind is ContentType,
    ensures
        match r {
            Some(t) => reading(kind, s@) == Some(Reading::Text(t@)),
            None => reading(kind, s@) is None,
        },
{
    match kind {
        EntryKind::Origin => parse_origin(s),
        EntryKind::Method => parse_method(s),
        EntryKind::Header => parse_header_name(s),
        _ => parse_mime(s),
    }
}

/// Reads a list of entries that are held as text. The first entry that
/// cannot be read refuses the list; otherwise the set of the readings comes
/// back, each once.
pub(crate) fn read_text_entries(kind: EntryKind, inputs: &Vec<String>) -> (r: Result<Vec<String>, String>)
    requires
        kind is Origin || kind is Method || kind is Header || kind is ContentType,
    ensures
        match r {
            Ok(out) => {
                &&& first_rejected(kind, inputs@) is None
                &&& distinct_texts(out@)
                &&& text_readings(out@) == accepted(kind, inputs@)
            },
            Err(bad) => first_rejected(kind, inputs@) == Some(bad@),
        },
{
    let mut out: Vec<String> = Vec::new();
    let mut i: usize = 0;
    while i < inputs.len()
        invariant
            i <= inputs.len(),
            kind is Origin || kind is Method || kind is Header || kind is ContentType,
            first_rejected(kind, inputs@.take(i as int)) is None,
            distinct_texts(out@),
            text_readings(out@) == accepted(kind, inputs@.take(i as int)),
        decreases inputs.len() - i,
    {
        let ghost before = inputs@.take(i as int);
        let ghost after = inputs@.take(i + 1);
        let ghost old_out = out@;
        proof {
            assert(after.drop_last() =~= before);
            assert(after.last() == inputs@[i as int]);
        }
        match read_text_entry(kind, inputs[i].as_str()) {
            None => {
                proof {
                    rejected_stays(kind, inputs@, i + 1);
                }
                return Err(inputs[i].clone());
            },
            Some(t) => {
                let ghost tv = t@;
                let present = has_text(&out, &t);
                if !present {
                    out.push(t);
                }
                proof {
                    if !present {
                        assert(out@[out@.len() - 1]@ == tv);
                    }
                    assert(exists|k: int| 0 <= k < out@.len() && (#[trigger] out@[k])@ == tv);
                    assert(text_readings(out@) =~= accepted(kind, after)) by {
                        assert forall|r: Reading| accepted(kind, after).contains(r) implies text_readings(
                            out@,
                        ).contains(r) by {
                            let j = choose|j: int|
                                0 <= j < after.len() && reading(kind, (#[trigger] after[j])@) == Some(r);
                            if j < i {
                                assert(before[j] == after[j]);
                                assert(accepted(kind, before).contains(r));
                                assert(text_readings(old_out).contains(r));
                                let k = choose|k: int|
                                    0 <= k < old_out.len() && r == Reading::Text((#[trigger] old_out[k])@);
                                assert(out@[k] == old_out[k]);
                            } else {
                                assert(r == Reading::Text(tv));
                                let k = choose|k: int| 0 <= k < out@.len() && (#[trigger] out@[k])@ == tv;
                                assert(out@[k]@ == tv);
                            }
                        }
                        assert forall|r: Reading| text_readings(out@).contains(r) implies accepted(
                            kind,
                            after,
                        ).contains(r) by {
                            let k = choose|k: int|
                                0 <= k < out@.len() && r == Reading::Text((#[trigger] out@[k])@);
                            if k < old_out.len() {
                                assert(out@[k] == old_out[k]);
                                assert(text_readings(old_out).contains(r));
                                let j = choose|j: int|
                                    0 <= j < before.len() && reading(kind, (#[trigger] before[j])@)
                                        == Some(r);
                                assert(after[j] == before[j]);
                            } else {
                                assert(reading(kind, after[i as int]@) == Some(r));
                            }
                        }
                    }
                }
            },
        }
        i += 1;
    }
    assert(inputs@.take(inputs.len() as int) =~= inputs@);
    Ok(out)
}

/// Whether a list of TLS versions holds a version.
pub fn has_version(v: &Vec<TlsVersion>, x: TlsVersion) -> (r: bool)
    ensures
        r == v@.contains(x),
{
    let mut i: usize = 0;
    while i < v.len()
        invariant
            i <= v.len(),
            forall|j: int| 0 <= j < i ==> v@[j] != x,
        decreases v.len() - i,
    {
        if v[i] == x {
            return true;
        }
        i += 1;
    }
    false
}

/// Whether a list of networks holds a network.
pub fn has_block(v: &Vec<CidrBlock>, x: CidrBlock) -> (r: bool)
    ensures
        r == v@.contains(x),
{
    let mut i: usize = 0;
    while i < v.len()
        invariant
            i <= v.len(),
            forall|j: int| 0 <= j < i ==> v@[j] != x,
        decreases v.len() - i,
    {
        if v[i] == x {
            return true;
        }
        i += 1;
    }
    false
}

/// Reads a list of TLS versions. The first entry that names no supported
/// version refuses the list; otherwise the set of the versions comes back,
/// each once.
pub(crate) fn read_versions(inputs: &Vec<String>) -> (r: Result<Vec<TlsVersion>, String>)
    ensures
        match r {
            Ok(out) => {
                &&& first_rejected(EntryKind::TlsVersion, inputs@) is None
                &&& out@.no_duplicates()
                &&& version_readings(out@) == accepted(EntryKind::TlsVersion, inputs@)
            },
            Err(bad) => first_rejected(EntryKind::TlsVersion, inputs@) == Some(bad@),
        },
{
    let kind = EntryKind::TlsVersion;
    let mut out: Vec<TlsVersion> = Vec::new();
    let mut i: usize = 0;
    while i < inputs.len()
        invariant
            i <= inputs.len(),
            kind == EntryKind::TlsVersion,
            first_rejected(kind, inputs@.take(i as int)) is None,
            out@.no_duplicates(),
            version_readings(out@) == accepted(kind, inputs@.take(i as int)),
        decreases inputs.len() - i,
    {
        let ghost before = inputs@.take(i as int);
        let ghost after = inputs@.take(i + 1);
        let ghost old_out = out@;
        proof {
            assert(after.drop_last() =~= before);
            assert(after.last() == inputs@[i as int]);
        }
        match TlsVersion::parse(inputs[i].as_str()) {
            None => {
                proof {
                    rejected_stays(kind, inputs@, i + 1);
                }
                return Err(inputs[i].clone());
            },
            Some(t) => {
                let ghost tv = t;
                let present = has_version(&out, t);
                if !present {
                    out.push(t);
                }
                proof {
                    if !present {
                        assert(out@[out@.len() - 1] == tv);
                    }
                    assert(exists|k: int| 0 <= k < out@.len() && (#[trigger] out@[k]) == tv);
                    assert(version_readings(out@) =~= accepted(kind, after)) by {
                        assert forall|r: Reading| accepted(kind, after).contains(r) implies version_readings(
                            out@,
                        ).contains(r) by {
                            let j = choose|j: int|
                                0 <= j < after.len() && reading(kind, (#[trigger] after[j])@) == Some(r);
                            if j < i {
                                assert(before[j] == after[j]);
                                assert(accepted(kind, before).contains(r));
                                assert(version_readings(old_out).contains(r));
                                let k = choose|k: int|
                                    0 <= k < old_out.len() && r == Reading::Version(#[trigger] old_out[k]);
                                assert(out@[k] == old_out[k]);
                            } else {
                                assert(r == Reading::Version(tv));
                                let k = choose|k: int| 0 <= k < out@.len() && (#[trigger] out@[k]) == tv;
                                assert(out@[k] == tv);
                            }
                        }
                        assert forall|r: Reading| version_readings(out@).contains(r) implies accepted(
                            kind,
                            after,
                        ).contains(r) by {
                            let k = choose|k: int|
                                0 <= k < out@.len() && r == Reading::Version(#[trigger] out@[k]);
                            if k < old_out.len() {
                                assert(out@[k] == old_out[k]);
                                assert(version_readings(old_out).contains(r));
                                let j = choose|j: int|
                                    0 <= j < before.len() && reading(kind, (#[trigger] before[j])@)
                                        == Some(r);
                                assert(after[j] == before[j]);
                            } else {
                                assert(reading(kind, after[i as int]@) == Some(r));
                            }
                        }
                    }
                }
            },
        }
        i += 1;
    }
    assert(inputs@.take(inputs.len() as int) =~= inputs@);
    Ok(out)
}

/// Reads a list of networks. The first entry that `cidr` does not read
/// refuses the list; otherwise the set of the networks comes back, each once
/// and each well formed.
pub(crate) fn read_blocks(inputs: &Vec<String>) -> (r: Result<Vec<CidrBlock>, String>)
    ensures
        match r {
            Ok(out) => {
                &&& first_rejected(EntryKind::IpRange, inputs@) is None
                &&& out@.no_duplicates()
                &&& forall|k: int| 0 <= k < out@.len() ==> (#[trigger] out@[k]).wf()
                &&& block_readings(out@) == accepted(EntryKind::IpRange, inputs@)
            },
            Err(bad) => first_rejected(EntryKind::IpRange, inputs@) == Some(bad@),
        },
{
    let kind = EntryKind::IpRange;
    let mut out: Vec<CidrBlock> = Vec::new();
    let mut i: usize = 0;
    while i < inputs.len()
        invariant
            i <= inputs.len(),
            kind == EntryKind::IpRange,
            first_rejected(kind, inputs@.take(i as int)) is None,
            out@.no_duplicates(),
            forall|k: int| 0 <= k < out@.len() ==> (#[trigger] out@[k]).wf(),
            block_readings(out@) == accepted(kind, inputs@.take(i as int)),
        decreases inputs.len() - i,
    {
        let ghost before = inputs@.take(i as int);
        let ghost after = inputs@.take(i + 1);
        let ghost old_out = out@;
        proof {
            assert(after.drop_last() =~= before);
            assert(after.last() == inputs@[i as int]);
        }
        match parse_cidr(inputs[i].as_str()) {
            None => {
                proof {
                    rejected_stays(kind, inputs@, i + 1);
                }
                return Err(inputs[i].clone());
            },
            Some(t) => {
                let ghost tv = t;
                let present = has_block(&out, t);
                if !present {
                    out.push(t);
                }
                proof {
                    if !present {
                        assert(out@[out@.len() - 1] == tv);
                    }
                    assert(exists|k: int| 0 <= k < out@.len() && (#[trigger] out@[k]) == tv);
                    assert(block_readings(out@) =~= accepted(kind, after)) by {
                        assert forall|r: Reading| accepted(kind, after).contains(r) implies block_readings(
                            out@,
                        ).contains(r) by {
                            let j = choose|j: int|
                                0 <= j < after.len() && reading(kind, (#[trigger] after[j])@) == Some(r);
                            if j < i {
                                assert(before[j] == after[j]);
                                assert(accepted(kind, before).contains(r));
                                assert(block_readings(old_out).contains(r));
                                let k = choose|k: int|
                                    0 <= k < old_out.len() && r == Reading::Block(#[trigger] old_out[k]);
                                assert(out@[k] == old_out[k]);
                            } else {
                                assert(r == Reading::Block(tv));
                                let k = choose|k: int| 0 <= k < out@.len() && (#[trigger] out@[k]) == tv;
                                assert(out@[k] == tv);
                            }
                        }
                        assert forall|r: Reading| block_readings(out@).contains(r) implies accepted(
                            kind,
                            after,
                        ).contains(r) by {
                            let k = choose|k: int|
                                0 <= k < out@.len() && r == Reading::Block(#[trigger] out@[k]);
                            if k < old_out.len() {
                                assert(out@[k] == old_out[k]);
                                assert(block_readings(old_out).contains(r));
                                let j = choose|j: int|
                                    0 <= j < before.len() && reading(kind, (#[trigger] before[j])@)
                                        == Some(r);
                                assert(after[j] == before[j]);
                            } else {
                                assert(reading(kind, after[i as int]@) == Some(r));
                            }
                        }
                    }
                }
            },
        }
        i += 1;
    }
    assert(inputs@.take(inputs.len() as int) =~= inputs@);
    Ok(out)
}

/// Once a leading part of a list has a rejected entry, the whole list has
/// the same one.
pub proof fn rejected_stays(kind: EntryKind, inputs: Seq<String>, i: int)
    requires
        0 <= i <= inputs.len(),
        first_rejected(kind, inputs.take(i)) is Some,
    ensures
        first_rejected(kind, inputs) == first_rejected(kind, inputs.take(i)),
    decreases inputs.len() - i,
{
    if i == inputs.len() {
        assert(inputs.take(i) =~= inputs);
    } else {
        assert(inputs.take(i + 1).drop_last() =~= inputs.take(i));
        rejected_stays(kind, inputs, i + 1);
    }
}

} // verus!
