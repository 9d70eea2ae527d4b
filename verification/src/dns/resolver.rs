//! DNS message building blocks: the header with its packed flag word,
//! the question and resource-record sections, and the encoding of a
//! standard query (RFC 1035 §4.1).

use crate::dns::compressor::{
    compress_spec, CompressOutcome, CompressorErrors, MessageCompressor, PointerMap,
};
use rand::rngs::SmallRng;
use rand::Rng;
use rand::SeedableRng;
use vstd::prelude::*;

verus! {

/// Generates a random 16-bit identifier for a DNS query.
///
/// Relies on `rand`: a small fast generator is seeded from the
/// thread-local one and drawn from once. Nothing is promised of the
/// result; it depends on the generator's state.
#[verifier::external_body]
pub fn generate_id() -> (r: u16) {
    let mut thread_rng = rand::rng();
    let mut rng = SmallRng::from_rng(&mut thread_rng);

    rng.random::<u16>()
}

/// The big-endian bytes of a sixteen-bit value.
pub open spec fn u16_be(x: int) -> Seq<u8> {
    seq![(x / 0x100) as u8, (x % 0x100) as u8]
}

/// The 16-bit DNS flags field (RFC 1035 §4.1.1), unpacked.
#[derive(Debug, Clone, Copy)]
pub struct DnsHeaderFlags {
    /// Query/Response flag
    pub qr: bool,
    /// Operation code
    /// Use `OpCodeOptions`
    pub opcode: u8,
    /// Authoritative Answer
    pub aa: bool,
    /// Truncation flag
    pub tc: bool,
    /// Recursion Desired
    pub rd: bool,
    /// Recursion Available
    pub ra: bool,
    /// Reserved bits (RFC 1035)
    pub z: u8,
    /// Response code
    pub rcode: u8,
}

/// One for a set flag, zero otherwise.
pub open spec fn bool_bit(b: bool) -> u16 {
    if b {
        1u16
    } else {
        0u16
    }
}

/// The packed flag word: query bit on top, then opcode, the single-bit
/// flags, the reserved bits and the response code.
pub open spec fn flags_word_of(f: DnsHeaderFlags) -> u16 {
    (bool_bit(f.qr) << 15u16) | (((f.opcode & 0xF) as u16) << 11u16) | (bool_bit(f.aa) << 10u16)
        | (bool_bit(f.tc) << 9u16) | (bool_bit(f.rd) << 8u16) | (bool_bit(f.ra) << 7u16) | (((f.z
        & 0x7) as u16) << 4u16) | ((f.rcode & 0xF) as u16)
}

/// The flag word unpacked field by field.
pub open spec fn flags_of_word(value: u16) -> DnsHeaderFlags {
    DnsHeaderFlags {
        qr: (value >> 15u16) & 1 != 0,
        opcode: ((value >> 11u16) & 0xF) as u8,
        aa: (value >> 10u16) & 1 != 0,
        tc: (value >> 9u16) & 1 != 0,
        rd: (value >> 8u16) & 1 != 0,
        ra: (value >> 7u16) & 1 != 0,
        z: ((value >> 4u16) & 0x7) as u8,
        rcode: (value & 0xF) as u8,
    }
}

impl DnsHeaderFlags {
    /// Packs the flags into the 16-bit wire word.
    pub fn to_u16(self) -> (r: u16)
        ensures
            r == flags_word_of(self),
    {
        ((if self.qr {
            1u16
        } else {
            0u16
        }) << 15u16) | (((self.opcode & 0xF) as u16) << 11u16) | ((if self.aa {
            1u16
        } else {
            0u16
        }) << 10u16) | ((if self.tc {
            1u16
        } else {
            0u16
        }) << 9u16) | ((if self.rd {
            1u16
        } else {
            0u16
        }) << 8u16) | ((if self.ra {
            1u16
        } else {
            0u16
        }) << 7u16) | (((self.z & 0x7) as u16) << 4u16) | ((self.rcode & 0xF) as u16)
    }

    /// Unpacks a 16-bit wire word into its flags.
    pub fn from_u16(value: u16) -> (r: DnsHeaderFlags)
        ensures
            r == flags_of_word(value),
    {
        DnsHeaderFlags {
            qr: (value >> 15u16) & 1 != 0,
            opcode: ((value >> 11u16) & 0xF) as u8,
            aa: (value >> 10u16) & 1 != 0,
            tc: (value >> 9u16) & 1 != 0,
            rd: (value >> 8u16) & 1 != 0,
            ra: (value >> 7u16) & 1 != 0,
            z: ((value >> 4u16) & 0x7) as u8,
            rcode: (value & 0xF) as u8,
        }
    }
}

/// Unpacking a packed flag word gives the flags back, as long as the
/// multi-bit fields fit their widths: four bits of opcode and response
/// code, three reserved bits.
pub proof fn lemma_flags_round_trip(f: DnsHeaderFlags)
    requires
        f.opcode < 16,
        f.z < 8,
        f.rcode < 16,
    ensures
        flags_of_word(flags_word_of(f)) == f,
{
    let qb = bool_bit(f.qr);
    let ab = bool_bit(f.aa);
    let tb = bool_bit(f.tc);
    let db = bool_bit(f.rd);
    let rb = bool_bit(f.ra);
    let op = f.opcode;
    let z = f.z;
    let rc = f.rcode;
    let w = (qb << 15u16) | (((op & 0xF) as u16) << 11u16) | (ab << 10u16) | (tb << 9u16) | (db
        << 8u16) | (rb << 7u16) | (((z & 0x7) as u16) << 4u16) | ((rc & 0xF) as u16);
    assert(((w >> 15u16) & 1 != 0) == (qb == 1) && ((w >> 11u16) & 0xF) as u8 == op && ((w
        >> 10u16) & 1 != 0) == (ab == 1) && ((w >> 9u16) & 1 != 0) == (tb == 1) && ((w >> 8u16) & 1
        != 0) == (db == 1) && ((w >> 7u16) & 1 != 0) == (rb == 1) && ((w >> 4u16) & 0x7) as u8 == z
        && (w & 0xF) as u8 == rc) by (bit_vector)
        requires
            qb <= 1 && ab <= 1 && tb <= 1 && db <= 1 && rb <= 1 && op < 16 && z < 8 && rc < 16 && w
                == (qb << 15u16) | (((op & 0xF) as u16) << 11u16) | (ab << 10u16) | (tb << 9u16) | (
            db << 8u16) | (rb << 7u16) | (((z & 0x7) as u16) << 4u16) | ((rc & 0xF) as u16),
    ;
}

/// Operation codes for DNS queries (RFC 1035 §4.1.1).
#[derive(Debug, Clone, Copy, PartialEq, Eq, Structural)]
pub enum OpCodeOptions {
    StandardQuery,
    InverseQuery,
    ServerStatusRequest,
}

/// The numeric operation code.
pub open spec fn opcode_value_of(o: OpCodeOptions) -> u8 {
    match o {
        OpCodeOptions::StandardQuery => 0,
        OpCodeOptions::InverseQuery => 1,
        OpCodeOptions::ServerStatusRequest => 2,
    }
}

impl OpCodeOptions {
    /// The numeric operation code carried in the flag word.
    pub fn value(self) -> (r: u8)
        ensures
            r == opcode_value_of(self),
    {
        match self {
            OpCodeOptions::StandardQuery => 0,
            OpCodeOptions::InverseQuery => 1,
            OpCodeOptions::ServerStatusRequest => 2,
        }
    }
}

/// DNS record types (a subset of the QTYPEs of RFC 1035).
#[derive(Debug, Clone, Copy, PartialEq, Eq, Structural)]
pub enum RecordType {
    /// A host address
    A,
    /// An authoritative name server
    Ns,
    /// The canonical name for an alias
    Cname,
    /// Marks the start of a zone of authority
    Soa,
    /// A well known service description
    Wks,
    /// A domain name pointer
    Ptr,
    /// Host information
    Hinfo,
    /// Mailbox or mail list information
    Minfo,
    /// Mail exchange
    Mx,
    /// Text strings
    Txt,
}

/// The numeric code of each record type.
pub open spec fn record_code_of(t: RecordType) -> u16 {
    match t {
        RecordType::A => 1,
        RecordType::Ns => 2,
        RecordType::Cname => 5,
        RecordType::Soa => 6,
        RecordType::Wks => 11,
        RecordType::Ptr => 12,
        RecordType::Hinfo => 13,
        RecordType::Minfo => 14,
        RecordType::Mx => 15,
        RecordType::Txt => 16,
    }
}

impl RecordType {
    /// The numeric code carried in the question section.
    pub fn code(self) -> (r: u16)
        ensures
            r == record_code_of(self),
    {
        match self {
            RecordType::A => 1,
            RecordType::Ns => 2,
            RecordType::Cname => 5,
            RecordType::Soa => 6,
            RecordType::Wks => 11,
            RecordType::Ptr => 12,
            RecordType::Hinfo => 13,
            RecordType::Minfo => 14,
            RecordType::Mx => 15,
            RecordType::Txt => 16,
        }
    }

    /// Encodes the record type as its two-byte big-endian code.
    pub fn to_bytes(self) -> (r: [u8; 2])
        ensures
            r@ == u16_be(record_code_of(self) as int),
    {
        let code = self.code();
        let bytes: [u8; 2] = [(code / 0x100) as u8, (code % 0x100) as u8];
        proof {
            assert(bytes@ =~= u16_be(record_code_of(self) as int));
        }
        bytes
    }
}

/// The header section of a DNS message (RFC 1035 §4.1.1): an identifier,
/// the packed flag word, and the entry counts of the four sections.
#[derive(Debug, Clone, Copy, PartialEq, Eq, Structural)]
pub struct HeaderSection {
    /// Identifier to match requests and responses.
    pub id: u16,
    /// Flags and control bits for the DNS message.
    /// Use [`DnsHeaderFlags`]
    pub flags: u16,
    /// Number of entries in the question section.
    pub qd_count: u16,
    /// Number of resource records in the answer section.
    pub an_count: u16,
    /// Number of name server records in the authority section.
    pub ns_count: u16,
    /// Number of resource records in the additional section.
    pub ar_count: u16,
}

/// The twelve header bytes on the wire.
pub open spec fn header_bytes_of(h: HeaderSection) -> Seq<u8> {
    u16_be(h.id as int) + u16_be(h.flags as int) + u16_be(h.qd_count as int) + u16_be(
        h.an_count as int,
    ) + u16_be(h.ns_count as int) + u16_be(h.ar_count as int)
}

impl HeaderSection {
    /// Converts the header into a 12-byte array suitable for network
    /// transmission.
    pub fn to_bytes(&self) -> (r: [u8; 12])
        ensures
            r@ == header_bytes_of(*self),
    {
        let bytes: [u8; 12] = [
            (self.id / 0x100) as u8,
            (self.id % 0x100) as u8,
            (self.flags / 0x100) as u8,
            (self.flags % 0x100) as u8,
            (self.qd_count / 0x100) as u8,
            (self.qd_count % 0x100) as u8,
            (self.an_count / 0x100) as u8,
            (self.an_count % 0x100) as u8,
            (self.ns_count / 0x100) as u8,
            (self.ns_count % 0x100) as u8,
            (self.ar_count / 0x100) as u8,
            (self.ar_count % 0x100) as u8,
        ];
        proof {
            assert(bytes@ =~= header_bytes_of(*self));
        }
        bytes
    }

    /// Appends the twelve header bytes to a message buffer.
    pub fn write_bytes(&self, out: &mut Vec<u8>)
        ensures
            final(out)@ == old(out)@ + header_bytes_of(*self),
    {
        out.push((self.id / 0x100) as u8);
        out.push((self.id % 0x100) as u8);
        out.push((self.flags / 0x100) as u8);
        out.push((self.flags % 0x100) as u8);
        out.push((self.qd_count / 0x100) as u8);
        out.push((self.qd_count % 0x100) as u8);
        out.push((self.an_count / 0x100) as u8);
        out.push((self.an_count % 0x100) as u8);
        out.push((self.ns_count / 0x100) as u8);
        out.push((self.ns_count % 0x100) as u8);
        out.push((self.ar_count / 0x100) as u8);
        out.push((self.ar_count % 0x100) as u8);
        proof {
            assert(out@ =~= old(out)@ + header_bytes_of(*self));
        }
    }
}

/// The question section: the name asked about, the record type wanted,
/// and the class.
#[derive(Debug, Clone, PartialEq)]
pub struct QuestionSection {
    /// The domain name being queried.
    pub name: String,
    /// The type of DNS record being requested (e.g., A, AAAA, MX).
    pub record_type: u16,
    /// The class of the DNS record (usually IN for Internet, or CH for Chaos).
    pub class: u16,
}

/// A resource record of the answer section.
#[derive(Debug, Clone, PartialEq)]
pub struct AnswerSection {
    /// The domain name that owns this record.
    pub owner_name: String,
    /// The type of DNS record (e.g., A, AAAA, CNAME).
    pub record_type: u16,
    /// The class of the DNS record (usually IN).
    pub class: u16,
    /// Time-to-live of the record in seconds.
    pub ttl: i32,
    /// Length of the RDATA field.
    pub rd_length: u16,
    /// The actual resource data (e.g., IP address for A record).
    pub r_data: String,
}

/// A resource record of the authority section.
#[derive(Debug, Clone, PartialEq)]
pub struct AuthoritySection {
    /// The domain name that owns this record.
    pub owner_name: String,
    /// The type of DNS record.
    pub record_type: u16,
    /// The class of the DNS record.
    pub class: u16,
    /// Time-to-live of the record in seconds.
    pub ttl: u32,
    /// Length of the RDATA field.
    pub rd_length: u16,
    /// The actual resource data (e.g., authoritative name server).
    pub r_data: String,
}

/// A resource record of the additional section.
#[derive(Debug, Clone, PartialEq)]
pub struct AdditionalSection {
    /// The domain name that owns this record.
    pub owner_name: String,
    /// The type of DNS record.
    pub record_type: u16,
    /// The class of the DNS record.
    pub class: u16,
    /// Time-to-live of the record in seconds.
    pub ttl: u32,
    /// Length of the RDATA field.
    pub rd_length: u16,
    /// The actual resource data (e.g., additional IP information).
    pub r_data: String,
}

/// A full DNS message: the header and the four sections.
#[derive(Debug, Clone, PartialEq)]
pub struct DnsMessage {
    pub header: HeaderSection,
    /// The question for the name server
    pub question: QuestionSection,
    /// RRs answering the question
    pub answer: Vec<AnswerSection>,
    /// RRs pointing toward an authority
    pub authority: Vec<AuthoritySection>,
    /// RRs holding additional information
    pub additional: Vec<AdditionalSection>,
}

/// The flags of a standard recursive query with the given opcode.
pub open spec fn query_flags_of(query_type: OpCodeOptions) -> DnsHeaderFlags {
    DnsHeaderFlags {
        qr: false,
        opcode: opcode_value_of(query_type),
        aa: false,
        tc: false,
        rd: true,
        ra: false,
        z: 0,
        rcode: 0,
    }
}

impl DnsMessage {
    /// Creates a new standard query message for `target`, with a freshly
    /// drawn identifier. Everything but the identifier is pinned down:
    /// one question carrying the name, the record type's code and the
    /// Internet class, the flag word of a recursive query, and empty
    /// resource sections.
    pub fn new_query(target: &str, record_type: RecordType, query_type: OpCodeOptions) -> (r:
        DnsMessage)
        ensures
            r.header.flags == flags_word_of(query_flags_of(query_type)),
            r.header.qd_count == 1,
            r.header.an_count == 0,
            r.header.ns_count == 0,
            r.header.ar_count == 0,
            r.question.name@ == target@,
            r.question.record_type == record_code_of(record_type),
            r.question.class == 1,
            r.answer@.len() == 0,
            r.authority@.len() == 0,
            r.additional@.len() == 0,
    {
        DnsMessage {
            header: HeaderSection {
                id: generate_id(),
                flags: DnsHeaderFlags {
                    qr: false,
                    opcode: query_type.value(),
                    aa: false,
                    tc: false,
                    rd: true,
                    ra: false,
                    z: 0,
                    rcode: 0,
                }.to_u16(),
                qd_count: 1,
                an_count: 0,
                ns_count: 0,
                ar_count: 0,
            },
            question: QuestionSection {
                name: String::from_str(target),
                record_type: record_type.code(),
                class: 1,
            },
            answer: Vec::new(),
            authority: Vec::new(),
            additional: Vec::new(),
        }
    }

    /// Encodes the query for the wire: the header bytes, the compressed
    /// question name, then the record type and class. The question name
    /// must compress cleanly: under 255 bytes with no label over 63.
    pub fn encode_query(&self) -> (r: Vec<u8>)
        requires
            compress_spec(
                self.question.name@,
                header_bytes_of(self.header),
                Map::empty(),
            ) is Done,
        ensures
            r@ == compress_spec(
                self.question.name@,
                header_bytes_of(self.header),
                Map::empty(),
            )->Done_bytes + u16_be(self.question.record_type as int) + u16_be(
                self.question.class as int,
            ),
    {
        let mut message: Vec<u8> = Vec::new();
        let mut pointer_map = PointerMap::new();

        self.header.write_bytes(&mut message);
        proof {
            assert(message@ =~= header_bytes_of(self.header));
        }
        let res = MessageCompressor::compress(self.question.name.as_str(), &mut message, &mut pointer_map);
        proof {
            assert(res is Ok);
        }
        message.push((self.question.record_type / 0x100) as u8);
        message.push((self.question.record_type % 0x100) as u8);
        message.push((self.question.class / 0x100) as u8);
        message.push((self.question.class % 0x100) as u8);
        proof {
            assert(message@ =~= compress_spec(
                self.question.name@,
                header_bytes_of(self.header),
                Map::empty(),
            )->Done_bytes + u16_be(self.question.record_type as int) + u16_be(
                self.question.class as int,
            ));
        }
        message
    }
}

} // verus!
