//! Content hashes: the SHA-1 digest of an object's kind, length and bytes.

use sha1::Digest;
use vstd::prelude::*;

verus! {

/// The four kinds of stored object.
#[derive(Clone, Copy, Debug, PartialEq, Eq, Structural)]
pub enum ObjectKind {
    Blob,
    Tree,
    Commit,
    Tag,
}

impl ObjectKind {
    /// The kind's name in ASCII, as it stands at the head of a hashed
    /// object.
    pub open spec fn spec_name(self) -> Seq<u8> {
        match self {
            // b l o b
            ObjectKind::Blob => seq![0x62u8, 0x6cu8, 0x6fu8, 0x62u8],
            // t r e e
            ObjectKind::Tree => seq![0x74u8, 0x72u8, 0x65u8, 0x65u8],
            // c o m m i t
            ObjectKind::Commit => seq![0x63u8, 0x6fu8, 0x6du8, 0x6du8, 0x69u8, 0x74u8],
            // t a g
            ObjectKind::Tag => seq![0x74u8, 0x61u8, 0x67u8],
        }
    }

    /// The kind's name as text.
    pub open spec fn spec_label(self) -> Seq<char> {
        match self {
            ObjectKind::Blob => "blob"@,
            ObjectKind::Tree => "tree"@,
            ObjectKind::Commit => "commit"@,
            ObjectKind::Tag => "tag"@,
        }
    }

    /// The kind's name as text: `blob`, `tree`, `commit` or `tag`.
    pub fn label(self) -> (text: &'static str)
        ensures
            text@ == self.spec_label(),
    {
        match self {
            ObjectKind::Blob => "blob",
            ObjectKind::Tree => "tree",
            ObjectKind::Commit => "commit",
            ObjectKind::Tag => "tag",
        }
    }

    /// The bytes of `blob`, `tree`, `commit` or `tag`.
    pub fn name(self) -> (out: Vec<u8>)
        ensures
            out@ == self.spec_name(),
    {
        let out = match self {
            ObjectKind::Blob => vec![0x62u8, 0x6cu8, 0x6fu8, 0x62u8],
            ObjectKind::Tree => vec![0x74u8, 0x72u8, 0x65u8, 0x65u8],
            ObjectKind::Commit => vec![0x63u8, 0x6fu8, 0x6du8, 0x6du8, 0x69u8, 0x74u8],
            ObjectKind::Tag => vec![0x74u8, 0x61u8, 0x67u8],
        };
        assert(out@ =~= self.spec_name());
        out
    }
}

/// The decimal digits of `n` in ASCII, most significant first.
pub open spec fn decimal(n: nat) -> Seq<u8>
    decreases n,
{
    if n < 10 {
        seq![(0x30 + n) as u8]
    } else {
        decimal(n / 10).push((0x30 + n % 10) as u8)
    }
}

/// What is digested for an object: its kind's name, a space, the decimal
/// length of its bytes, a zero byte, then the bytes themselves.
pub open spec fn framed(kind: ObjectKind, data: Seq<u8>) -> Seq<u8> {
    kind.spec_name() + seq![0x20u8] + decimal(data.len()) + seq![0u8] + data
}

/// The SHA-1 digest of a byte string.
pub uninterp spec fn sha1_of(data: Seq<u8>) -> Seq<u8>;

/// The content hash of an object, as a sequence of 20 bytes.
pub open spec fn spec_hash(kind: ObjectKind, data: Seq<u8>) -> Seq<u8> {
    sha1_of(framed(kind, data))
}

/// Calls `sha1::Sha1::digest` (the `Digest` trait's one-shot function).
/// Trusted: the 20 bytes handed back are the SHA-1 digest of `data`, a
/// function of `data` alone.
#[verifier::external_body]
fn sha1_digest(data: &[u8]) -> (digest: [u8; 20])
    ensures
        digest@ == sha1_of(data@),
{
    sha1::Sha1::digest(data).into()
}

/// The ASCII decimal digits of `n`.
pub fn decimal_digits(n: usize) -> (out: Vec<u8>)
    ensures
        out@ == decimal(n as nat),
{
    let mut rev: Vec<u8> = Vec::new();
    let mut rest: usize = n;
    let ghost mut tail: Seq<u8> = Seq::empty();
    while rest >= 10
        invariant
            decimal(n as nat) == decimal(rest as nat) + tail,
            rev@.len() == tail.len(),
            forall|i: int| 0 <= i < tail.len() ==> rev@[i] == tail[tail.len() - 1 - i],
        decreases rest,
    {
        let d: u8 = 0x30u8 + (rest % 10) as u8;
        proof {
            let next = seq![d] + tail;
            assert(decimal(rest as nat) == decimal((rest / 10) as nat).push(d));
            assert(decimal(n as nat) == decimal((rest / 10) as nat) + next);
            tail = next;
        }
        rev.push(d);
        rest = rest / 10;
    }
    let d: u8 = 0x30u8 + rest as u8;
    let mut out: Vec<u8> = Vec::new();
    out.push(d);
    let mut i: usize = rev.len();
    while i > 0
        invariant
            i <= rev.len(),
            rev@.len() == tail.len(),
            forall|k: int| 0 <= k < tail.len() ==> rev@[k] == tail[tail.len() - 1 - k],
            out@ == seq![d] + tail.take(tail.len() - i),
        decreases i,
    {
        i -= 1;
        out.push(rev[i]);
        assert(out@ == seq![d] + tail.take(tail.len() - i));
    }
    assert(tail.take(tail.len() as int) == tail);
    assert(decimal(rest as nat) == seq![d]);
    out
}

/// The bytes that are digested for an object of `kind` holding `data`.
pub fn object_preimage(kind: ObjectKind, data: &[u8]) -> (out: Vec<u8>)
    ensures
        out@ == framed(kind, data@),
{
    let mut out = kind.name();
    out.push(0x20u8);
    let mut digits = decimal_digits(data.len());
    out.append(&mut digits);
    out.push(0u8);
    let ghost head = out@;
    let mut i: usize = 0;
    while i < data.len()
        invariant
            i <= data.len(),
            out@ == head + data@.take(i as int),
        decreases data.len() - i,
    {
        out.push(data[i]);
        i += 1;
        assert(out@ == head + data@.take(i as int));
    }
    assert(data@.take(data.len() as int) == data@);
    out
}

/// Every byte of `decimal(n)` is an ASCII digit.
pub proof fn lemma_decimal_digits(n: nat)
    ensures
        decimal(n).len() >= 1,
        forall|i: int| 0 <= i < decimal(n).len() ==> 0x30 <= #[trigger] decimal(n)[i] <= 0x39,
    decreases n,
{
    if n >= 10 {
        lemma_decimal_digits(n / 10);
    }
}

/// The framing loses nothing: two objects with the same digested bytes
/// have the same kind and the same content.
pub proof fn lemma_framed_injective(k1: ObjectKind, d1: Seq<u8>, k2: ObjectKind, d2: Seq<u8>)
    requires
        framed(k1, d1) == framed(k2, d2),
    ensures
        k1 == k2,
        d1 == d2,
{
    let f1 = framed(k1, d1);
    let f2 = framed(k2, d2);
    lemma_decimal_digits(d1.len());
    lemma_decimal_digits(d2.len());
    assert(f1[0] == k1.spec_name()[0] && f1[1] == k1.spec_name()[1]);
    assert(f2[0] == k2.spec_name()[0] && f2[1] == k2.spec_name()[1]);
    assert(k1 == k2);
    let start: int = k1.spec_name().len() as int + 1;
    let e1: int = start + decimal(d1.len()).len();
    let e2: int = start + decimal(d2.len()).len();
    assert(f1[e1] == 0u8);
    assert(f2[e2] == 0u8);
    if e1 < e2 {
        assert(f2[e1] == decimal(d2.len())[e1 - start]);
    }
    if e2 < e1 {
        assert(f1[e2] == decimal(d1.len())[e2 - start]);
    }
    assert(e1 == e2);
    assert(d1 == f1.subrange(e1 + 1, f1.len() as int));
    assert(d2 == f2.subrange(e2 + 1, f2.len() as int));
}

/// The same bytes declared under two different kinds are digested from
/// different inputs; so their hashes differ wherever SHA-1 does not
/// collide on those two inputs.
pub proof fn lemma_kinds_hash_apart(k1: ObjectKind, k2: ObjectKind, data: Seq<u8>)
    requires
        k1 != k2,
        sha1_of(framed(k1, data)) == sha1_of(framed(k2, data)) ==> framed(k1, data) == framed(
            k2,
            data,
        ),
    ensures
        framed(k1, data) != framed(k2, data),
        spec_hash(k1, data) != spec_hash(k2, data),
{
    if framed(k1, data) == framed(k2, data) {
        lemma_framed_injective(k1, data, k2, data);
    }
}

/// The lower-case hexadecimal digit for a value below 16.
pub open spec fn hex_char(n: int) -> char {
    if n == 0 {
        '0'
    } else if n == 1 {
        '1'
    } else if n == 2 {
        '2'
    } else if n == 3 {
        '3'
    } else if n == 4 {
        '4'
    } else if n == 5 {
        '5'
    } else if n == 6 {
        '6'
    } else if n == 7 {
        '7'
    } else if n == 8 {
        '8'
    } else if n == 9 {
        '9'
    } else if n == 10 {
        'a'
    } else if n == 11 {
        'b'
    } else if n == 12 {
        'c'
    } else if n == 13 {
        'd'
    } else if n == 14 {
        'e'
    } else {
        'f'
    }
}

/// Two lower-case hexadecimal digits for each byte, high digit first.
pub open spec fn spec_hex(bytes: Seq<u8>) -> Seq<char> {
    Seq::new(
        2 * bytes.len(),
        |i: int|
            if i % 2 == 0 {
                hex_char(bytes[i / 2] as int / 16)
            } else {
                hex_char(bytes[i / 2] as int % 16)
            },
    )
}

fn hex_digit(n: u8) -> (s: &'static str)
    requires
        n < 16,
    ensures
        s@ == seq![hex_char(n as int)],
{
    proof {
        reveal_strlit("0");
        reveal_strlit("1");
        reveal_strlit("2");
        reveal_strlit("3");
        reveal_strlit("4");
        reveal_strlit("5");
        reveal_strlit("6");
        reveal_strlit("7");
        reveal_strlit("8");
        reveal_strlit("9");
        reveal_strlit("a");
        reveal_strlit("b");
        reveal_strlit("c");
        reveal_strlit("d");
        reveal_strlit("e");
        reveal_strlit("f");
    }
    let s = match n {
        0 => "0",
        1 => "1",
        2 => "2",
        3 => "3",
        4 => "4",
        5 => "5",
        6 => "6",
        7 => "7",
        8 => "8",
        9 => "9",
        10 => "a",
        11 => "b",
        12 => "c",
        13 => "d",
        14 => "e",
        _ => "f",
    };
    assert(s@ =~= seq![hex_char(n as int)]);
    s
}

/// The identity of a stored object: 20 bytes of SHA-1 digest.
#[derive(Clone, Copy, Debug, PartialEq, Eq, Hash)]
pub struct ContentHash {
    pub bytes: [u8; 20],
}

impl View for ContentHash {
    type V = Seq<u8>;

    open spec fn view(&self) -> Seq<u8> {
        self.bytes@
    }
}

impl ContentHash {
    /// The hash's text: 40 lower-case hexadecimal digits.
    pub open spec fn spec_text(self) -> Seq<char> {
        spec_hex(self@)
    }

    /// Whether two hashes are the same 20 bytes.
    pub fn same_as(&self, other: &ContentHash) -> (same: bool)
        ensures
            same == (self@ == other@),
    {
        let mut i: usize = 0;
        while i < 20
            invariant
                i <= 20,
                forall|k: int| 0 <= k < i ==> self.bytes@[k] == other.bytes@[k],
            decreases 20 - i,
        {
            if self.bytes[i] != other.bytes[i] {
                return false;
            }
            i += 1;
        }
        assert(self@ =~= other@);
        true
    }

    /// The hash as 40 lower-case hexadecimal digits.
    pub fn to_hex(&self) -> (text: String)
        ensures
            text@ == self.spec_text(),
            text@.len() == 40,
    {
        let mut text = String::new();
        let mut i: usize = 0;
        while i < 20
            invariant
                i <= 20,
                text@ == spec_hex(self@).take(2 * i as int),
            decreases 20 - i,
        {
            let b: u8 = self.bytes[i];
            text.append(hex_digit(b / 16));
            text.append(hex_digit(b % 16));
            i += 1;
            assert(text@ =~= spec_hex(self@).take(2 * i as int));
        }
        assert(spec_hex(self@).take(40) == spec_hex(self@));
        text
    }
}

/// The content hash of an object: the SHA-1 digest of its framed bytes.
/// Any byte sequence is accepted.
pub fn hash_object(kind: ObjectKind, data: &[u8]) -> (hash: ContentHash)
    ensures
        hash@ == spec_hash(kind, data@),
{
    let preimage = object_preimage(kind, data);
    ContentHash { bytes: sha1_digest(preimage.as_slice()) }
}

/// The hash of a file's content stored as a blob.
pub fn calc_file_blob_hash(content: &[u8]) -> (hash: ContentHash)
    ensures
        hash@ == spec_hash(ObjectKind::Blob, content@),
{
    hash_object(ObjectKind::Blob, content)
}

} // verus!
