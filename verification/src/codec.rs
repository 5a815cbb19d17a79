use vstd::prelude::*;

verus! {

/// The least multiple of 4 that is at least `n`.
pub open spec fn round4(n: int) -> int {
    ((n + 3) / 4) * 4
}

/// Rounds `n` up to the next multiple of 4, with the bit trick the
/// binary container format prescribes.
pub fn align_to_multiple_of_four(n: u32) -> (r: u32)
    requires
        n <= u32::MAX - 3,
    ensures
        r == round4(n as int),
        r % 4 == 0,
        r >= n,
        r - n < 4,
{
    let m = n + 3;
    let r = m & !3u32;
    proof {
        assert(m & !3u32 == (m / 4) * 4 && (m & !3u32) % 4 == 0 && m - 3 <= m & !3u32
            && m & !3u32 <= m) by (bit_vector);
        assert(r == ((n + 3) / 4) * 4);
    }
    r
}

/// `round4` rounds up to a multiple of 4 and moves by less than 4.
pub proof fn lemma_round4(n: int)
    requires
        0 <= n,
    ensures
        n <= round4(n) < n + 4,
        round4(n) % 4 == 0,
{
    vstd::arithmetic::div_mod::lemma_fundamental_div_mod(n + 3, 4);
    vstd::arithmetic::div_mod::lemma_mod_bound(n + 3, 4);
    vstd::arithmetic::div_mod::lemma_mod_multiples_basic((n + 3) / 4, 4);
}

/// The container's magic, the ASCII bytes of "glTF".
pub open spec fn magic_bytes() -> Seq<u8> {
    seq![0x67u8, 0x6Cu8, 0x54u8, 0x46u8]
}

/// The JSON chunk's type field, the ASCII bytes of "JSON".
pub open spec fn json_chunk_type() -> Seq<u8> {
    seq![0x4Au8, 0x53u8, 0x4Fu8, 0x4Eu8]
}

/// The binary chunk's type field, the ASCII bytes of "BIN" and a zero.
pub open spec fn bin_chunk_type() -> Seq<u8> {
    seq![0x42u8, 0x49u8, 0x4Eu8, 0x00u8]
}

/// The four little-endian bytes of a 32-bit value.
pub open spec fn le32(n: int) -> Seq<u8>
    recommends
        0 <= n < 0x1_0000_0000,
{
    seq![
        (n % 256) as u8,
        ((n / 256) % 256) as u8,
        ((n / 65536) % 256) as u8,
        ((n / 16777216) % 256) as u8,
    ]
}

/// The value of four little-endian bytes.
pub open spec fn le_val(b: Seq<u8>) -> int
    recommends
        b.len() == 4,
{
    b[0] + 256 * (b[1] as int) + 65536 * (b[2] as int) + 16777216 * (b[3] as int)
}

/// Reading back the four little-endian bytes of a value yields the value.
pub proof fn lemma_le32_val(n: u32)
    ensures
        le_val(le32(n as int)) == n,
{
    assert(n % 256 + 256 * ((n / 256) % 256) + 65536 * ((n / 65536) % 256) + 16777216 * ((n
        / 16777216) % 256) == n) by (bit_vector);
}

/// Decoding fails with `InvalidMagic` or `UnsupportedVersion` on a bad
/// header, with `MissingJsonChunk` when the first chunk is absent or not
/// JSON-typed, and with `Parse` on a truncated header or chunk.
#[derive(Clone, Copy, PartialEq, Eq, Structural, Debug)]
pub enum GlbError {
    InvalidMagic,
    UnsupportedVersion,
    MissingJsonChunk,
    Parse,
}

impl GlbError {
    /// The user-visible message for this error.
    pub fn message(&self) -> (r: &'static str)
        ensures
            r@ == (match self {
                GlbError::InvalidMagic => "Invalid magic in container header."@,
                GlbError::UnsupportedVersion => "Unsupported container version."@,
                GlbError::MissingJsonChunk => "Missing JSON chunk in container."@,
                GlbError::Parse => "Malformed container."@,
            }),
    {
        match self {
            GlbError::InvalidMagic => "Invalid magic in container header.",
            GlbError::UnsupportedVersion => "Unsupported container version.",
            GlbError::MissingJsonChunk => "Missing JSON chunk in container.",
            GlbError::Parse => "Malformed container.",
        }
    }
}

/// A decoded container: the JSON chunk's payload and, if a binary chunk
/// follows, that chunk's payload.
#[derive(Debug, PartialEq, Eq)]
pub struct Glb {
    pub json: Vec<u8>,
    pub bin: Option<Vec<u8>>,
}

#[verifier::ext_equal]
pub ghost struct GlbView {
    pub json: Seq<u8>,
    pub bin: Option<Seq<u8>>,
}

impl View for Glb {
    type V = GlbView;

    open spec fn view(&self) -> GlbView {
        GlbView {
            json: self.json@,
            bin: match self.bin {
                None => None,
                Some(b) => Some(b@),
            },
        }
    }
}

/// The payload of the first binary-typed chunk at or after `off`, if
/// any; chunks of other types are skipped, and a truncated chunk is a
/// `Parse` failure.
pub open spec fn scan_bin_spec(b: Seq<u8>, off: int) -> Result<Option<Seq<u8>>, GlbError>
    recommends
        0 <= off <= b.len(),
    decreases b.len() - off,
{
    if off >= b.len() {
        Ok(None)
    } else if off + 8 > b.len() {
        Err(GlbError::Parse)
    } else {
        let clen = le_val(b.subrange(off, off + 4));
        let ctype = b.subrange(off + 4, off + 8);
        if off + 8 + clen > b.len() {
            Err(GlbError::Parse)
        } else if ctype == bin_chunk_type() {
            Ok(Some(b.subrange(off + 8, off + 8 + clen)))
        } else {
            scan_bin_spec(b, off + 8 + clen)
        }
    }
}

/// What decoding a byte stream yields: the container format, read from
/// the front. The 12-byte header must carry the magic and version 2 (its
/// declared length is read but not used to bound parsing); the first
/// chunk must be JSON-typed and becomes the JSON payload; the first
/// binary-typed chunk after it, if any, becomes the binary payload;
/// other chunks are skipped, never fatal.
pub open spec fn decode_spec(b: Seq<u8>) -> Result<GlbView, GlbError> {
    if b.len() < 4 {
        Err(GlbError::Parse)
    } else if b.subrange(0, 4) != magic_bytes() {
        Err(GlbError::InvalidMagic)
    } else if b.len() < 8 {
        Err(GlbError::Parse)
    } else if le_val(b.subrange(4, 8)) != 2 {
        Err(GlbError::UnsupportedVersion)
    } else if b.len() == 12 {
        Err(GlbError::MissingJsonChunk)
    } else if b.len() < 20 {
        Err(GlbError::Parse)
    } else if b.subrange(16, 20) != json_chunk_type() {
        Err(GlbError::MissingJsonChunk)
    } else {
        let jlen = le_val(b.subrange(12, 16));
        if 20 + jlen > b.len() {
            Err(GlbError::Parse)
        } else {
            match scan_bin_spec(b, 20 + jlen) {
                Err(e) => Err(e),
                Ok(bin) => Ok(GlbView { json: b.subrange(20, 20 + jlen), bin }),
            }
        }
    }
}

/// The padding that rounds the JSON payload up to a multiple of 4:
/// ASCII space bytes.
pub open spec fn pad4(j: Seq<u8>) -> Seq<u8> {
    j + Seq::new((round4(j.len() as int) - j.len()) as nat, |k: int| 0x20u8)
}

pub open spec fn opt_len(bin: Option<Seq<u8>>) -> int {
    match bin {
        None => 0,
        Some(b) => b.len() as int,
    }
}

/// What encoding emits: the header (magic, version 2, and the declared
/// length, which by the format's convention counts only the padded JSON
/// payload and the binary payload), the JSON chunk with its payload
/// padded to a multiple of 4 with spaces, and the binary chunk exactly
/// when a binary payload is given.
pub open spec fn encode_spec(j: Seq<u8>, bin: Option<Seq<u8>>) -> Seq<u8> {
    let pj = pad4(j);
    let total = round4(j.len() as int) + opt_len(bin);
    magic_bytes() + le32(2) + le32(total) + le32(pj.len() as int) + json_chunk_type() + pj + (
    match bin {
        None => Seq::empty(),
        Some(bb) => le32(bb.len() as int) + bin_chunk_type() + bb,
    })
}

/// Appends the four little-endian bytes of `n`.
fn push_le32(out: &mut Vec<u8>, n: u32)
    ensures
        final(out)@ == old(out)@ + le32(n as int),
{
    out.push((n % 256) as u8);
    out.push(((n / 256) % 256) as u8);
    out.push(((n / 65536) % 256) as u8);
    out.push(((n / 16777216) % 256) as u8);
    proof {
        assert(out@ =~= old(out)@ + le32(n as int));
    }
}

/// Reads four little-endian bytes at `off`.
fn read_le32(b: &Vec<u8>, off: usize) -> (r: u32)
    requires
        off + 4 <= b.len(),
    ensures
        r as int == le_val(b@.subrange(off as int, off as int + 4)),
{
    let r = b[off] as u32 + 256 * (b[off + 1] as u32) + 65536 * (b[off + 2] as u32) + 16777216 * (
    b[off + 3] as u32);
    proof {
        let s = b@.subrange(off as int, off as int + 4);
        assert(s[0] == b@[off as int] && s[1] == b@[off as int + 1] && s[2] == b@[off as int + 2]
            && s[3] == b@[off as int + 3]);
    }
    r
}

/// Copies `len` bytes starting at `start`.
fn copy_range(b: &Vec<u8>, start: usize, len: usize) -> (r: Vec<u8>)
    requires
        start + len <= b.len(),
    ensures
        r@ == b@.subrange(start as int, start as int + len as int),
{
    let mut r: Vec<u8> = Vec::new();
    let mut i: usize = 0;
    while i < len
        invariant
            i <= len,
            start + len <= b.len(),
            r@ == b@.subrange(start as int, start as int + i as int),
        decreases len - i,
    {
        r.push(b[start + i]);
        proof {
            assert(r@ =~= b@.subrange(start as int, start as int + i + 1));
        }
        i += 1;
    }
    r
}

/// Whether the four bytes at `off` are `t0 t1 t2 t3`.
fn bytes4_eq(b: &Vec<u8>, off: usize, t0: u8, t1: u8, t2: u8, t3: u8) -> (r: bool)
    requires
        off + 4 <= b.len(),
    ensures
        r == (b@.subrange(off as int, off as int + 4) == seq![t0, t1, t2, t3]),
{
    let r = b[off] == t0 && b[off + 1] == t1 && b[off + 2] == t2 && b[off + 3] == t3;
    proof {
        let s = b@.subrange(off as int, off as int + 4);
        let t = seq![t0, t1, t2, t3];
        if r {
            assert(s =~= t);
        } else {
            assert(s[0] == b@[off as int] && s[1] == b@[off as int + 1] && s[2] == b@[off as int
                + 2] && s[3] == b@[off as int + 3]);
            assert(s != t);
        }
    }
    r
}

/// Decodes a binary container: checks the header's magic and version,
/// takes the first chunk (which must be JSON-typed) as the JSON payload,
/// and the first binary-typed chunk after it, if any, as the binary
/// payload. Exactly `decode_spec` of the input.
pub fn decode_glb(bytes: &Vec<u8>) -> (r: Result<Glb, GlbError>)
    ensures
        r matches Ok(g) ==> decode_spec(bytes@) == Ok::<GlbView, GlbError>(g@),
        r matches Err(e) ==> decode_spec(bytes@) == Err::<GlbView, GlbError>(e),
{
    let n = bytes.len();
    if n < 4 {
        return Err(GlbError::Parse);
    }
    if !bytes4_eq(bytes, 0, 0x67, 0x6C, 0x54, 0x46) {
        proof {
            assert(magic_bytes() =~= seq![0x67u8, 0x6Cu8, 0x54u8, 0x46u8]);
        }
        return Err(GlbError::InvalidMagic);
    }
    proof {
        assert(magic_bytes() =~= seq![0x67u8, 0x6Cu8, 0x54u8, 0x46u8]);
    }
    if n < 8 {
        return Err(GlbError::Parse);
    }
    let version = read_le32(bytes, 4);
    if version != 2 {
        return Err(GlbError::UnsupportedVersion);
    }
    if n == 12 {
        return Err(GlbError::MissingJsonChunk);
    }
    if n < 20 {
        return Err(GlbError::Parse);
    }
    if !bytes4_eq(bytes, 16, 0x4A, 0x53, 0x4F, 0x4E) {
        proof {
            assert(json_chunk_type() =~= seq![0x4Au8, 0x53u8, 0x4Fu8, 0x4Eu8]);
        }
        return Err(GlbError::MissingJsonChunk);
    }
    proof {
        assert(json_chunk_type() =~= seq![0x4Au8, 0x53u8, 0x4Fu8, 0x4Eu8]);
    }
    let jlen32 = read_le32(bytes, 12);
    let jlen = jlen32 as usize;
    if jlen > n - 20 {
        return Err(GlbError::Parse);
    }
    let json = copy_range(bytes, 20, jlen);
    let ghost start: int = 20 + jlen as int;
    let mut off: usize = 20 + jlen;
    proof {
        assert(bin_chunk_type() =~= seq![0x42u8, 0x49u8, 0x4Eu8, 0x00u8]);
    }
    while off < n
        invariant
            20 + jlen <= off <= n,
            n == bytes@.len(),
            start == 20 + jlen as int,
            scan_bin_spec(bytes@, off as int) == scan_bin_spec(bytes@, start),
            json@ == bytes@.subrange(20, 20 + jlen as int),
            jlen == jlen32 as usize,
            jlen32 as int == le_val(bytes@.subrange(12, 16)),
            bytes@.subrange(0, 4) == magic_bytes(),
            le_val(bytes@.subrange(4, 8)) == 2,
            bytes@.subrange(16, 20) == json_chunk_type(),
        decreases n - off,
    {
        if n - off < 8 {
            return Err(GlbError::Parse);
        }
        let clen32 = read_le32(bytes, off);
        let clen = clen32 as usize;
        if clen > n - off - 8 {
            return Err(GlbError::Parse);
        }
        if bytes4_eq(bytes, off + 4, 0x42, 0x49, 0x4E, 0x00) {
            let bin = copy_range(bytes, off + 8, clen);
            proof {
                assert(scan_bin_spec(bytes@, off as int) == Ok::<Option<Seq<u8>>, GlbError>(
                    Some(bytes@.subrange(off as int + 8, off as int + 8 + clen as int)),
                ));
            }
            return Ok(Glb { json, bin: Some(bin) });
        }
        off = off + 8 + clen;
    }
    Ok(Glb { json, bin: None })
}

/// Encodes a binary container: the 12-byte header, the JSON chunk with
/// its payload padded to a multiple of 4 with spaces, and, exactly when
/// a binary payload is given, the binary chunk. Exactly `encode_spec`
/// of the inputs. The header's declared length counts only the padded
/// JSON payload plus the binary payload, as the format's consumers
/// expect.
pub fn encode_glb(json: &Vec<u8>, bin: Option<&Vec<u8>>) -> (r: Vec<u8>)
    requires
        json@.len() + 3 <= u32::MAX,
        round4(json@.len() as int) + opt_len(bin_arg_view(bin)) <= u32::MAX,
    ensures
        r@ == encode_spec(json@, bin_arg_view(bin)),
{
    proof {
        lemma_round4(json@.len() as int);
    }
    let jlen32 = json.len() as u32;
    let plen = align_to_multiple_of_four(jlen32);
    let blen: u32 = match bin {
        None => 0,
        Some(b) => b.len() as u32,
    };
    let total = plen + blen;
    let mut out: Vec<u8> = Vec::new();
    out.push(0x67);
    out.push(0x6C);
    out.push(0x54);
    out.push(0x46);
    proof {
        assert(out@ =~= magic_bytes());
    }
    push_le32(&mut out, 2);
    push_le32(&mut out, total);
    push_le32(&mut out, plen);
    out.push(0x4A);
    out.push(0x53);
    out.push(0x4F);
    out.push(0x4E);
    let ghost header = out@;
    proof {
        assert(header =~= magic_bytes() + le32(2) + le32(total as int) + le32(plen as int)
            + json_chunk_type());
    }
    let mut i: usize = 0;
    while i < json.len()
        invariant
            i <= json@.len(),
            out@ == header + json@.subrange(0, i as int),
        decreases json@.len() - i,
    {
        out.push(json[i]);
        proof {
            assert(out@ =~= header + json@.subrange(0, i + 1));
        }
        i += 1;
    }
    proof {
        assert(json@.subrange(0, json@.len() as int) =~= json@);
    }
    let pad = (plen as usize) - json.len();
    let mut k: usize = 0;
    while k < pad
        invariant
            k <= pad,
            out@ == header + json@ + Seq::new(k as nat, |q: int| 0x20u8),
        decreases pad - k,
    {
        out.push(0x20);
        proof {
            assert(out@ =~= header + json@ + Seq::new((k + 1) as nat, |q: int| 0x20u8));
        }
        k += 1;
    }
    proof {
        assert(out@ =~= header + pad4(json@));
    }
    let ghost with_json = out@;
    match bin {
        None => {
            proof {
                assert(out@ =~= encode_spec(json@, bin_arg_view(bin)));
            }
        },
        Some(b) => {
            push_le32(&mut out, blen);
            out.push(0x42);
            out.push(0x49);
            out.push(0x4E);
            out.push(0x00);
            let ghost bin_header = out@;
            proof {
                assert(bin_header =~= with_json + le32(blen as int) + bin_chunk_type());
            }
            let mut m: usize = 0;
            while m < b.len()
                invariant
                    m <= b@.len(),
                    out@ == bin_header + b@.subrange(0, m as int),
                decreases b@.len() - m,
            {
                out.push(b[m]);
                proof {
                    assert(out@ =~= bin_header + b@.subrange(0, m + 1));
                }
                m += 1;
            }
            proof {
                assert(b@.subrange(0, b@.len() as int) =~= b@);
                assert(out@ =~= encode_spec(json@, bin_arg_view(bin)));
            }
        },
    }
    out
}

/// The view of an optional borrowed byte payload.
pub open spec fn bin_arg_view(bin: Option<&Vec<u8>>) -> Option<Seq<u8>> {
    match bin {
        None => None,
        Some(b) => Some(b@),
    }
}

/// Encodes a binary container as `encode_glb` does, after checking that
/// the padded JSON payload and the declared total length fit the
/// format's 32-bit fields: `None` exactly when they do not.
pub fn try_encode_glb(json: &Vec<u8>, bin: Option<&Vec<u8>>) -> (r: Option<Vec<u8>>)
    ensures
        r is Some <==> json@.len() + 3 <= u32::MAX && round4(json@.len() as int) + opt_len(
            bin_arg_view(bin),
        ) <= u32::MAX,
        r matches Some(v) ==> v@ == encode_spec(json@, bin_arg_view(bin)),
{
    let jlen = json.len();
    if jlen as u64 > (u32::MAX - 3) as u64 {
        return None;
    }
    let plen = align_to_multiple_of_four(jlen as u32);
    let blen: u64 = match bin {
        None => 0,
        Some(b) => b.len() as u64,
    };
    if blen > u32::MAX as u64 {
        return None;
    }
    if plen as u64 + blen > u32::MAX as u64 {
        return None;
    }
    Some(encode_glb(json, bin))
}

proof fn lemma_rt_header(j: Seq<u8>, bin: Option<Seq<u8>>)
    requires
        j.len() + 3 <= u32::MAX,
        round4(j.len() as int) + opt_len(bin) <= u32::MAX,
    ensures
        encode_spec(j, bin).len() == 20 + round4(j.len() as int) + (match bin {
            None => 0,
            Some(bb) => 8 + bb.len() as int,
        }),
        encode_spec(j, bin).subrange(0, 4) == magic_bytes(),
        le_val(encode_spec(j, bin).subrange(4, 8)) == 2,
        le_val(encode_spec(j, bin).subrange(12, 16)) == round4(j.len() as int),
        encode_spec(j, bin).subrange(16, 20) == json_chunk_type(),
{
    lemma_round4(j.len() as int);
    let plen = round4(j.len() as int);
    let b = encode_spec(j, bin);
    assert(pad4(j).len() == plen);
    assert(b.subrange(0, 4) =~= magic_bytes());
    assert(b.subrange(4, 8) =~= le32(2));
    lemma_le32_val(2u32);
    assert(b.subrange(12, 16) =~= le32(plen));
    lemma_le32_val(plen as u32);
}

proof fn lemma_rt_json(j: Seq<u8>, bin: Option<Seq<u8>>)
    requires
        j.len() + 3 <= u32::MAX,
        round4(j.len() as int) + opt_len(bin) <= u32::MAX,
    ensures
        encode_spec(j, bin).subrange(20, 20 + round4(j.len() as int)) == pad4(j),
{
    lemma_round4(j.len() as int);
    assert(pad4(j).len() == round4(j.len() as int));
    assert(encode_spec(j, bin).subrange(20, 20 + round4(j.len() as int)) =~= pad4(j));
}

#[verifier::rlimit(50)]
proof fn lemma_rt_scan(j: Seq<u8>, bin: Option<Seq<u8>>)
    requires
        j.len() + 3 <= u32::MAX,
        round4(j.len() as int) + opt_len(bin) <= u32::MAX,
    ensures
        scan_bin_spec(encode_spec(j, bin), 20 + round4(j.len() as int)) == Ok::<
            Option<Seq<u8>>,
            GlbError,
        >(bin),
{
    lemma_round4(j.len() as int);
    let plen = round4(j.len() as int);
    let b = encode_spec(j, bin);
    let off = 20 + plen;
    assert(pad4(j).len() == plen);
    match bin {
        None => {
            assert(b.len() == off);
        },
        Some(bb) => {
            assert(b.len() == off + 8 + bb.len());
            assert(b.subrange(off, off + 4) =~= le32(bb.len() as int));
            lemma_le32_val(bb.len() as u32);
            assert(le_val(b.subrange(off, off + 4)) == bb.len());
            assert(b.subrange(off + 4, off + 8) =~= bin_chunk_type());
            assert(b.subrange(off + 8, off + 8 + bb.len()) =~= bb);
            assert(scan_bin_spec(b, off) == Ok::<Option<Seq<u8>>, GlbError>(Some(bb)));
        },
    }
}

proof fn lemma_decode_from_facts(b: Seq<u8>, jlen: int, json: Seq<u8>, bin: Option<Seq<u8>>)
    requires
        b.len() >= 20,
        b.subrange(0, 4) == magic_bytes(),
        le_val(b.subrange(4, 8)) == 2,
        le_val(b.subrange(12, 16)) == jlen,
        b.subrange(16, 20) == json_chunk_type(),
        0 <= jlen,
        20 + jlen <= b.len(),
        b.subrange(20, 20 + jlen) == json,
        scan_bin_spec(b, 20 + jlen) == Ok::<Option<Seq<u8>>, GlbError>(bin),
    ensures
        decode_spec(b) == Ok::<GlbView, GlbError>(GlbView { json, bin }),
{
}

/// The padding never changes the payload's first bytes: the padded
/// payload starts with the given one, everything after it is an ASCII
/// space, and a payload whose length is a multiple of 4 is not padded
/// at all.
pub proof fn lemma_pad4(j: Seq<u8>)
    ensures
        pad4(j).len() == round4(j.len() as int),
        pad4(j).subrange(0, j.len() as int) == j,
        forall|k: int| j.len() <= k < pad4(j).len() ==> pad4(j)[k] == 0x20u8,
        j.len() % 4 == 0 ==> pad4(j) == j,
{
    lemma_round4(j.len() as int);
    assert(pad4(j).subrange(0, j.len() as int) =~= j);
    if j.len() % 4 == 0 {
        vstd::arithmetic::div_mod::lemma_fundamental_div_mod(j.len() as int, 4);
        assert(round4(j.len() as int) == j.len());
        assert(pad4(j) =~= j);
    }
}

/// Decoding an encoded container reproduces the binary payload exactly
/// and the JSON payload up to its space padding: by `lemma_pad4` the
/// decoded JSON payload is the given one followed by fewer than four
/// ASCII spaces, and is the given one exactly when its length is a
/// multiple of 4.
#[verifier::rlimit(100)]
pub proof fn lemma_container_round_trip(j: Seq<u8>, bin: Option<Seq<u8>>)
    requires
        j.len() + 3 <= u32::MAX,
        round4(j.len() as int) + opt_len(bin) <= u32::MAX,
    ensures
        decode_spec(encode_spec(j, bin)) == Ok::<GlbView, GlbError>(
            GlbView { json: pad4(j), bin },
        ),
        pad4(j).subrange(0, j.len() as int) == j,
        forall|k: int| j.len() <= k < pad4(j).len() ==> pad4(j)[k] == 0x20u8,
        j.len() % 4 == 0 ==> pad4(j) == j,
{
    lemma_round4(j.len() as int);
    let plen = round4(j.len() as int);
    lemma_rt_header(j, bin);
    lemma_rt_json(j, bin);
    lemma_rt_scan(j, bin);
    lemma_decode_from_facts(encode_spec(j, bin), plen, pad4(j), bin);
    lemma_pad4(j);
}

} // verus!
