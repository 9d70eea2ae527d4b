//! Domain-name compression for DNS messages (RFC 1035 §4.1.4).
//!
//! A name is written as length-prefixed labels ending in a zero byte. When
//! a suffix of the name has already been written into the message, a
//! two-byte pointer to its earlier position replaces it: the top two bits
//! of the pointer are ones, the lower fourteen hold the offset from the
//! start of the message.

use crate::utils::text::{find_dot, find_dot_at, lemma_first_at_or_after_bounds, p_dot, str_eq};
use vstd::prelude::*;
use vstd::string::StringSliceAdditionalSpecFns;
use vstd::utf8::encode_utf8;

verus! {

/// Why a name could not be compressed.
#[derive(Debug)]
pub enum CompressorErrors {
    LabelTooLong(String),
    InvalidName(String),
}

impl CompressorErrors {
    /// Writes the human-readable description of the error.
    pub fn message(&self) -> (r: String)
        ensures
            r@ == compressor_error_message_of(*self),
    {
        match self {
            CompressorErrors::LabelTooLong(s) => {
                let mut m = String::from_str("Label too long (>63): ");
                m.append(s.as_str());
                m
            },
            CompressorErrors::InvalidName(s) => {
                let mut m = String::from_str("Name is to long (>255): ");
                m.append(s.as_str());
                m
            },
        }
    }
}

/// The description of each compressor error.
pub open spec fn compressor_error_message_of(e: CompressorErrors) -> Seq<char> {
    match e {
        CompressorErrors::LabelTooLong(s) => "Label too long (>63): "@ + s@,
        CompressorErrors::InvalidName(s) => "Name is to long (>255): "@ + s@,
    }
}

/// The map from name suffixes to the message offset at which each was
/// first written. Later insertions of the same key win.
pub struct PointerMap {
    entries: Vec<(String, usize)>,
}

/// The map denoted by a list of entries, later entries overriding.
pub open spec fn entries_map(es: Seq<(String, usize)>) -> Map<Seq<char>, int>
    decreases es.len(),
{
    if es.len() == 0 {
        Map::empty()
    } else {
        entries_map(es.drop_last()).insert(es.last().0@, es.last().1 as int)
    }
}

impl View for PointerMap {
    type V = Map<Seq<char>, int>;

    closed spec fn view(&self) -> Map<Seq<char>, int> {
        entries_map(self.entries@)
    }
}

proof fn lemma_entries_map_key(es: Seq<(String, usize)>, key: Seq<char>)
    ensures
        entries_map(es).contains_key(key) <==> exists|j: int|
            0 <= j < es.len() && (#[trigger] es[j]).0@ == key,
    decreases es.len(),
{
    if es.len() > 0 {
        lemma_entries_map_key(es.drop_last(), key);
        if entries_map(es).contains_key(key) {
            if es.last().0@ != key {
                let j = choose|j: int| 0 <= j < es.len() - 1 && (#[trigger] es.drop_last()[j]).0@ == key;
                assert(es[j].0@ == key);
            }
        }
        if exists|j: int| 0 <= j < es.len() && (#[trigger] es[j]).0@ == key {
            let j = choose|j: int| 0 <= j < es.len() && (#[trigger] es[j]).0@ == key;
            if j < es.len() - 1 {
                assert(es.drop_last()[j].0@ == key);
            }
        }
    }
}

proof fn lemma_entries_map_at(es: Seq<(String, usize)>, i: int)
    requires
        0 <= i < es.len(),
        forall|j: int| i < j < es.len() ==> (#[trigger] es[j]).0@ != es[i].0@,
    ensures
        entries_map(es).contains_key(es[i].0@),
        entries_map(es)[es[i].0@] == es[i].1 as int,
    decreases es.len(),
{
    if i == es.len() - 1 {
        assert(es.last() == es[i]);
    } else {
        assert(es.drop_last()[i] == es[i]);
        lemma_entries_map_at(es.drop_last(), i);
        assert(es.last() == es[es.len() - 1]);
    }
}

impl PointerMap {
    /// An empty map.
    pub fn new() -> (m: PointerMap)
        ensures
            m@ == Map::<Seq<char>, int>::empty(),
    {
        PointerMap { entries: Vec::new() }
    }

    /// Looks a suffix up.
    pub fn get(&self, key: &str) -> (r: Option<usize>)
        ensures
            match r {
                Some(v) => self@.contains_key(key@) && self@[key@] == v as int,
                None => !self@.contains_key(key@),
            },
    {
        let n = self.entries.len();
        let mut i: usize = n;
        while i > 0
            invariant
                i <= n,
                n == self.entries@.len(),
                forall|j: int| i <= j < n ==> (#[trigger] self.entries@[j]).0@ != key@,
            decreases i,
        {
            i = i - 1;
            if str_eq(self.entries[i].0.as_str(), key) {
                proof {
                    lemma_entries_map_at(self.entries@, i as int);
                }
                return Some(self.entries[i].1);
            }
        }
        proof {
            lemma_entries_map_key(self.entries@, key@);
        }
        None
    }

    /// Records a suffix at an offset.
    pub fn insert(&mut self, key: String, val: usize)
        ensures
            final(self)@ == old(self)@.insert(key@, val as int),
    {
        self.entries.push((key, val));
        proof {
            assert(self.entries@.drop_last() =~= old(self).entries@);
            assert(self.entries@.last() == (key, val));
        }
    }
}

/// The byte length of a character sequence when encoded as UTF-8.
pub open spec fn byte_len(s: Seq<char>) -> int {
    encode_utf8(s).len() as int
}

/// The two pointer bytes for an offset of at most `0x3FFF`: the top two
/// bits set, the offset below them in big-endian order.
pub open spec fn pointer_bytes(off: int) -> Seq<u8>
    recommends
        0 <= off <= 0x3FFF,
{
    seq![(0xC0 + off / 0x100) as u8, (off % 0x100) as u8]
}

/// What compressing a name leaves behind: the message bytes and the
/// suffix map, or the offending label. A failure reports the message and
/// map as they stand when it is found, since the caller's buffers keep
/// the work already done.
pub enum CompressOutcome {
    Done { bytes: Seq<u8>, map: Map<Seq<char>, int> },
    LabelTooLong { label: Seq<char>, bytes: Seq<u8>, map: Map<Seq<char>, int> },
    NameTooLong,
}

/// Compresses the labels of `nm` from character position `i` on, with the
/// message `msg` and suffix map `map` built so far.
pub open spec fn compress_labels(
    nm: Seq<char>,
    i: int,
    msg: Seq<u8>,
    map: Map<Seq<char>, int>,
) -> CompressOutcome
    decreases nm.len() - i when 0 <= i <= nm.len()
    via compress_labels_decreases
{
    let j = find_dot(nm, i);
    let label = nm.subrange(i, j);
    let suffix = nm.skip(i);
    if map.contains_key(suffix) && map[suffix] <= 0x3FFF {
        CompressOutcome::Done { bytes: msg + pointer_bytes(map[suffix]), map }
    } else {
        let map2 = if map.contains_key(suffix) {
            map
        } else {
            map.insert(suffix, msg.len() as int)
        };
        if byte_len(label) > 63 {
            CompressOutcome::LabelTooLong { label, bytes: msg, map: map2 }
        } else {
            let msg2 = msg + seq![byte_len(label) as u8] + encode_utf8(label);
            if j == nm.len() {
                CompressOutcome::Done { bytes: msg2.push(0), map: map2 }
            } else {
                compress_labels(nm, j + 1, msg2, map2)
            }
        }
    }
}

#[via_fn]
proof fn compress_labels_decreases(nm: Seq<char>, i: int, msg: Seq<u8>, map: Map<Seq<char>, int>) {
    lemma_first_at_or_after_bounds(nm, i, p_dot());
}

/// The whole compression of `nm` into a message ending at `msg`: the name
/// must be under 255 bytes; a root or empty name is a single zero byte.
pub open spec fn compress_spec(nm: Seq<char>, msg: Seq<u8>, map: Map<Seq<char>, int>) -> CompressOutcome {
    if byte_len(nm) >= 0xFF {
        CompressOutcome::NameTooLong
    } else if nm == "."@ || nm.len() == 0 {
        CompressOutcome::Done { bytes: msg.push(0), map }
    } else {
        compress_labels(nm, 0, msg, map)
    }
}

/// Appends a byte slice to a vector.
fn push_bytes(out: &mut Vec<u8>, bytes: &[u8])
    ensures
        final(out)@ == old(out)@ + bytes@,
{
    let n = bytes.len();
    let mut k: usize = 0;
    while k < n
        invariant
            k <= n,
            n == bytes@.len(),
            out@ == old(out)@ + bytes@.take(k as int),
        decreases n - k,
    {
        let b = *vstd::slice::slice_index_get(bytes, k);
        out.push(b);
        proof {
            assert(out@ =~= old(out)@ + bytes@.take(k + 1));
        }
        k = k + 1;
    }
    proof {
        assert(old(out)@ + bytes@.take(n as int) =~= old(out)@ + bytes@);
    }
}

/// Compresses domain names within DNS messages.
pub struct MessageCompressor {}

impl MessageCompressor {
    /// Appends the RFC 1035 encoding of `name` to `message`: each label is
    /// written once with its length in front, a suffix already recorded in
    /// `pointer_map` is replaced by a two-byte pointer to it, and a newly
    /// written suffix is recorded at its offset. A name of 255 bytes or
    /// more, or a label over 63 bytes, is rejected.
    pub fn compress(name: &str, message: &mut Vec<u8>, pointer_map: &mut PointerMap) -> (r: Result<
        (),
        CompressorErrors,
    >)
        ensures
            match compress_spec(name@, old(message)@, old(pointer_map)@) {
                CompressOutcome::Done { bytes, map } => {
                    &&& r is Ok
                    &&& final(message)@ == bytes
                    &&& final(pointer_map)@ == map
                },
                CompressOutcome::LabelTooLong { label, bytes, map } => {
                    &&& r matches Err(CompressorErrors::LabelTooLong(l)) && l@ == label
                    &&& final(message)@ == bytes
                    &&& final(pointer_map)@ == map
                },
                CompressOutcome::NameTooLong => {
                    &&& r matches Err(CompressorErrors::InvalidName(m)) && m@ == name@
                    &&& final(message)@ == old(message)@
                    &&& final(pointer_map)@ == old(pointer_map)@
                },
            },
    {
        proof {
            assert(name.spec_bytes() == encode_utf8(name@));
        }
        if name.as_bytes().len() >= 0xFF {
            return Err(CompressorErrors::InvalidName(String::from_str(name)));
        }
        let n = name.unicode_len();
        if n == 0 {
            message.push(0);
            return Ok(());
        }
        if n == 1 && name.get_char(0) == '.' {
            proof {
                reveal_strlit(".");
                assert(name@ =~= "."@);
            }
            message.push(0);
            return Ok(());
        }
        let ghost nm = name@;
        let ghost goal = compress_spec(nm, old(message)@, old(pointer_map)@);
        proof {
            reveal_strlit(".");
            assert(nm != "."@) by {
                if nm == "."@ {
                    assert("."@ =~= seq!['.']);
                    assert(nm.len() == 1);
                    assert(nm[0] == '.');
                }
            }
            assert(goal == compress_labels(nm, 0, old(message)@, old(pointer_map)@));
        }
        let mut i: usize = 0;
        loop
            invariant
                i <= n,
                n == nm.len(),
                nm == name@,
                goal == compress_labels(nm, i as int, message@, pointer_map@),
                goal == compress_spec(nm, old(message)@, old(pointer_map)@),
            decreases n - i,
        {
            let j = find_dot_at(name, i);
            let suffix = name.substring_char(i, n);
            proof {
                assert(suffix@ =~= nm.skip(i as int));
            }
            let label = name.substring_char(i, j);
            proof {
                assert(label@ =~= nm.subrange(i as int, j as int));
            }
            let ghost msg_b = message@;
            match pointer_map.get(suffix) {
                Some(offset) => {
                    if offset <= 0x3FFF {
                        let hi: u8 = 0xC0 + (offset / 0x100) as u8;
                        let lo: u8 = (offset % 0x100) as u8;
                        message.push(hi);
                        message.push(lo);
                        proof {
                            assert(message@ =~= msg_b + pointer_bytes(offset as int));
                        }
                        return Ok(());
                    } else {
                        // The recorded offset cannot be written as a
                        // pointer; write the label out instead.
                        proof {
                            assert(label.spec_bytes() == encode_utf8(label@));
                        }
                        let bl = label.as_bytes().len();
                        assert(bl as int == byte_len(label@));
                        if bl > 63 {
                            return Err(CompressorErrors::LabelTooLong(String::from_str(label)));
                        }
                        let len_byte: u8 = bl as u8;
                        message.push(len_byte);
                        push_bytes(message, label.as_bytes());
                        proof {
                            assert(message@ =~= msg_b + seq![byte_len(label@) as u8]
                                + encode_utf8(label@));
                        }
                        if j == n {
                            let ghost msg_c = message@;
                            message.push(0);
                            proof {
                                assert(message@ =~= msg_c.push(0));
                            }
                            return Ok(());
                        }
                        i = j + 1;
                    }
                },
                None => {
                    pointer_map.insert(String::from_str(suffix), message.len());
                    proof {
                        assert(label.spec_bytes() == encode_utf8(label@));
                    }
                    let bl = label.as_bytes().len();
                    assert(bl as int == byte_len(label@));
                    if bl > 63 {
                        return Err(CompressorErrors::LabelTooLong(String::from_str(label)));
                    }
                    let len_byte: u8 = bl as u8;
                    message.push(len_byte);
                    push_bytes(message, label.as_bytes());
                    proof {
                        assert(message@ =~= msg_b + seq![byte_len(label@) as u8] + encode_utf8(
                            label@,
                        ));
                    }
                    if j == n {
                        let ghost msg_c = message@;
                        message.push(0);
                        proof {
                            assert(message@ =~= msg_c.push(0));
                        }
                        return Ok(());
                    }
                    i = j + 1;
                },
            }
        }
    }
}

} // verus!
