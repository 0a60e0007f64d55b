//! Integer side of the synthesised impact sounds: the noise generator that
//! drives the percussive samples, and the 16-bit mono PCM WAV container.
use vstd::prelude::*;

verus! {

/// One step of the linear congruential generator used for noise
/// (multiplier 1 664 525, increment 1 013 904 223, modulo 2³²).
pub open spec fn lcg_step(state: int) -> int {
    (state * 1664525 + 1013904223) % 0x1_0000_0000
}

/// The generator's state after `k` steps from `seed`.
pub open spec fn lcg_state(seed: int, k: nat) -> int
    decreases k,
{
    if k == 0 {
        seed
    } else {
        lcg_step(lcg_state(seed, (k - 1) as nat))
    }
}

/// Law of the noise generator: every state stays below 2³², the state 0
/// steps to the increment 1 013 904 223, and the successors of any two
/// states differ by 1 664 525 times their difference, modulo 2³² (the step
/// is the affine map `x ↦ 1 664 525·x + 1 013 904 223` on 32-bit words).
pub proof fn lemma_lcg_affine(a: int, b: int)
    requires
        0 <= a < 0x1_0000_0000,
        0 <= b < 0x1_0000_0000,
    ensures
        0 <= lcg_step(a) < 0x1_0000_0000,
        lcg_step(0) == 1013904223,
        (lcg_step(a) - lcg_step(b) - 1664525 * (a - b)) % 0x1_0000_0000 == 0,
{
    let m: int = 0x1_0000_0000;
    let x = a * 1664525 + 1013904223;
    let y = b * 1664525 + 1013904223;
    vstd::arithmetic::div_mod::lemma_fundamental_div_mod(x, m);
    vstd::arithmetic::div_mod::lemma_fundamental_div_mod(y, m);
    vstd::arithmetic::div_mod::lemma_mod_bound(x, m);
    let q = y / m - x / m;
    assert(lcg_step(a) - lcg_step(b) - 1664525 * (a - b) == m * q) by (nonlinear_arith)
        requires
            lcg_step(a) == x % m,
            lcg_step(b) == y % m,
            x == m * (x / m) + x % m,
            y == m * (y / m) + y % m,
            x - y == 1664525 * (a - b),
            q == y / m - x / m,
    ;
    vstd::arithmetic::div_mod::lemma_mod_multiples_basic(q, m);
    assert(m * q == q * m) by (nonlinear_arith);
}

/// Advances the noise generator by one step (wrapping arithmetic on 32 bits).
pub fn lcg_next(state: u32) -> (next: u32)
    ensures
        next == lcg_step(state as int),
{
    ((state as u64 * 1664525 + 1013904223) % 0x1_0000_0000) as u32
}

/// The first `n` noise words of the generator seeded with `seed`: word `k`
/// is the upper 16 bits of the state after `k + 1` steps.  A sample is made
/// from a word `w` as `w / 32768 - 1`.
pub fn noise_words(seed: u32, n: usize) -> (words: Vec<u16>)
    ensures
        words@.len() == n,
        forall|k: int| 0 <= k < n ==> #[trigger] words@[k] == lcg_state(seed as int, (k + 1) as nat) / 0x1_0000,
{
    let mut words: Vec<u16> = Vec::new();
    let mut state = seed;
    let mut k: usize = 0;
    while k < n
        invariant
            k <= n,
            words@.len() == k,
            state == lcg_state(seed as int, k as nat),
            forall|j: int| 0 <= j < k ==> #[trigger] words@[j] == lcg_state(seed as int, (j + 1) as nat) / 0x1_0000,
        decreases n - k,
    {
        state = lcg_next(state);
        words.push((state / 0x1_0000) as u16);
        k = k + 1;
    }
    words
}

/// Little-endian bytes of a 16-bit value.
pub open spec fn le16(v: int) -> Seq<u8> {
    seq![(v % 256) as u8, ((v / 256) % 256) as u8]
}

/// Little-endian bytes of a 32-bit value.
pub open spec fn le32(v: int) -> Seq<u8> {
    seq![
        (v % 256) as u8,
        ((v / 256) % 256) as u8,
        ((v / 0x1_0000) % 256) as u8,
        ((v / 0x100_0000) % 256) as u8,
    ]
}

/// The 16-bit two's-complement pattern of a sample.
pub open spec fn sample_bits(s: i16) -> int {
    if s < 0 {
        s + 0x1_0000
    } else {
        s as int
    }
}

/// The data chunk: each sample as little-endian 16-bit two's complement.
pub open spec fn pcm_bytes(samples: Seq<i16>) -> Seq<u8>
    decreases samples.len(),
{
    if samples.len() == 0 {
        Seq::empty()
    } else {
        pcm_bytes(samples.drop_last()) + le16(sample_bits(samples.last()))
    }
}

/// The 44-byte header of a mono, 16-bit PCM WAV file holding `data_len`
/// bytes of samples at `rate` samples per second.
pub open spec fn wav_header(data_len: int, rate: int) -> Seq<u8> {
    seq![0x52u8, 0x49, 0x46, 0x46] + le32(36 + data_len) + seq![0x57u8, 0x41, 0x56, 0x45]
        + seq![0x66u8, 0x6d, 0x74, 0x20] + le32(16) + le16(1) + le16(1) + le32(rate) + le32(
        rate * 2,
    ) + le16(2) + le16(16) + seq![0x64u8, 0x61, 0x74, 0x61] + le32(data_len)
}

/// Size field of the data chunk: twice the sample count, kept to 32 bits.
pub open spec fn data_len_field(n: int) -> int {
    (2 * n) % 0x1_0000_0000
}

/// Every sample takes two bytes of the data chunk.
pub proof fn lemma_pcm_bytes_len(samples: Seq<i16>)
    ensures
        pcm_bytes(samples).len() == 2 * samples.len(),
    decreases samples.len(),
{
    if samples.len() > 0 {
        lemma_pcm_bytes_len(samples.drop_last());
    }
}

/// Layout law of the WAV container: the header is 44 bytes, the file is 44
/// bytes plus two per sample, and the RIFF size field (bytes 4..8) holds the
/// file length minus the 8 bytes of the RIFF tag and size field itself.
pub proof fn lemma_wav_layout(samples: Seq<i16>, rate: int)
    requires
        36 + 2 * samples.len() <= u32::MAX,
    ensures
        wav_header(data_len_field(samples.len() as int), rate).len() == 44,
        (wav_header(data_len_field(samples.len() as int), rate) + pcm_bytes(samples)).len() == 44
            + 2 * samples.len(),
        wav_header(data_len_field(samples.len() as int), rate).subrange(4, 8) == le32(
            (44 + 2 * samples.len()) - 8,
        ),
{
    lemma_pcm_bytes_len(samples);
    let h = wav_header(data_len_field(samples.len() as int), rate);
    assert(data_len_field(samples.len() as int) == 2 * samples.len());
    assert(h.subrange(4, 8) =~= le32(36 + 2 * samples.len() as int));
}

/// The unsigned 16-bit little-endian value stored at bytes `i` and `i + 1`.
pub open spec fn read_le16(b: Seq<u8>, i: int) -> int {
    b[i] + 256 * b[i + 1]
}

/// The unsigned 32-bit little-endian value stored at bytes `i` to `i + 3`.
pub open spec fn read_le32(b: Seq<u8>, i: int) -> int {
    b[i] + 256 * b[i + 1] + 0x1_0000 * b[i + 2] + 0x100_0000 * b[i + 3]
}

/// The signed value of a 16-bit two's-complement pattern.
pub open spec fn signed16(u: int) -> int {
    if u >= 0x8000 {
        u - 0x1_0000
    } else {
        u
    }
}

proof fn lemma_le16_read_back(v: int)
    requires
        0 <= v < 0x1_0000,
    ensures
        read_le16(le16(v), 0) == v,
{
    vstd::arithmetic::div_mod::lemma_fundamental_div_mod(v, 256);
    assert(v / 256 < 256) by {
        vstd::arithmetic::div_mod::lemma_div_by_multiple_is_strongly_ordered(v, 0x1_0000, 256, 256);
    }
}

proof fn lemma_le32_read_back(v: int)
    requires
        0 <= v < 0x1_0000_0000,
    ensures
        read_le32(le32(v), 0) == v,
{
    let a = v / 256;
    let b = a / 256;
    let c = b / 256;
    vstd::arithmetic::div_mod::lemma_fundamental_div_mod(v, 256);
    vstd::arithmetic::div_mod::lemma_fundamental_div_mod(a, 256);
    vstd::arithmetic::div_mod::lemma_fundamental_div_mod(b, 256);
    vstd::arithmetic::div_mod::lemma_div_denominator(v, 256, 256);
    vstd::arithmetic::div_mod::lemma_div_denominator(v, 0x1_0000, 256);
    vstd::arithmetic::div_mod::lemma_div_pos_is_pos(v, 256);
    vstd::arithmetic::div_mod::lemma_div_pos_is_pos(a, 256);
    vstd::arithmetic::div_mod::lemma_div_pos_is_pos(b, 256);
    assert(c < 256) by {
        vstd::arithmetic::div_mod::lemma_div_by_multiple_is_strongly_ordered(
            v,
            0x1_0000_0000,
            0x100_0000,
            256,
        );
    }
    vstd::arithmetic::div_mod::lemma_small_mod(c as nat, 256);
}

/// Law of the WAV header: read back as little-endian fields, the header of
/// `data_len` bytes at `rate` holds the RIFF, WAVE, "fmt " and data tags,
/// a RIFF size of `36 + data_len`, a 16-byte PCM (format 1) format chunk
/// for one channel at `rate` samples and `2 * rate` bytes per second with
/// 2-byte blocks of 16 bits, and a data size of `data_len`.
pub proof fn lemma_wav_header_fields(data_len: int, rate: int)
    requires
        0 <= data_len,
        36 + data_len <= u32::MAX,
        0 <= rate,
        2 * rate <= u32::MAX,
    ensures
        wav_header(data_len, rate).len() == 44,
        wav_header(data_len, rate).subrange(0, 4) == seq![0x52u8, 0x49, 0x46, 0x46],
        read_le32(wav_header(data_len, rate), 4) == 36 + data_len,
        wav_header(data_len, rate).subrange(8, 12) == seq![0x57u8, 0x41, 0x56, 0x45],
        wav_header(data_len, rate).subrange(12, 16) == seq![0x66u8, 0x6d, 0x74, 0x20],
        read_le32(wav_header(data_len, rate), 16) == 16,
        read_le16(wav_header(data_len, rate), 20) == 1,
        read_le16(wav_header(data_len, rate), 22) == 1,
        read_le32(wav_header(data_len, rate), 24) == rate,
        read_le32(wav_header(data_len, rate), 28) == 2 * rate,
        read_le16(wav_header(data_len, rate), 32) == 2,
        read_le16(wav_header(data_len, rate), 34) == 16,
        wav_header(data_len, rate).subrange(36, 40) == seq![0x64u8, 0x61, 0x74, 0x61],
        read_le32(wav_header(data_len, rate), 40) == data_len,
{
    let h = wav_header(data_len, rate);
    assert(h.subrange(4, 8) =~= le32(36 + data_len));
    assert(h.subrange(16, 20) =~= le32(16));
    assert(h.subrange(20, 22) =~= le16(1));
    assert(h.subrange(22, 24) =~= le16(1));
    assert(h.subrange(24, 28) =~= le32(rate));
    assert(h.subrange(28, 32) =~= le32(rate * 2));
    assert(h.subrange(32, 34) =~= le16(2));
    assert(h.subrange(34, 36) =~= le16(16));
    assert(h.subrange(40, 44) =~= le32(data_len));
    assert(h.subrange(0, 4) =~= seq![0x52u8, 0x49, 0x46, 0x46]);
    assert(h.subrange(8, 12) =~= seq![0x57u8, 0x41, 0x56, 0x45]);
    assert(h.subrange(12, 16) =~= seq![0x66u8, 0x6d, 0x74, 0x20]);
    assert(h.subrange(36, 40) =~= seq![0x64u8, 0x61, 0x74, 0x61]);
    lemma_le32_read_back(36 + data_len);
    lemma_le32_read_back(16);
    lemma_le16_read_back(1);
    lemma_le32_read_back(rate);
    lemma_le32_read_back(rate * 2);
    lemma_le16_read_back(2);
    lemma_le16_read_back(16);
    lemma_le32_read_back(data_len);
    assert(read_le32(h, 4) == read_le32(le32(36 + data_len), 0)) by {
        assert(h.subrange(4, 8)[0] == h[4] && h.subrange(4, 8)[1] == h[5]);
        assert(h.subrange(4, 8)[2] == h[6] && h.subrange(4, 8)[3] == h[7]);
    }
    assert(read_le32(h, 16) == read_le32(le32(16), 0)) by {
        assert(h.subrange(16, 20)[0] == h[16] && h.subrange(16, 20)[1] == h[17]);
        assert(h.subrange(16, 20)[2] == h[18] && h.subrange(16, 20)[3] == h[19]);
    }
    assert(read_le16(h, 20) == read_le16(le16(1), 0)) by {
        assert(h.subrange(20, 22)[0] == h[20] && h.subrange(20, 22)[1] == h[21]);
    }
    assert(read_le16(h, 22) == read_le16(le16(1), 0)) by {
        assert(h.subrange(22, 24)[0] == h[22] && h.subrange(22, 24)[1] == h[23]);
    }
    assert(read_le32(h, 24) == read_le32(le32(rate), 0)) by {
        assert(h.subrange(24, 28)[0] == h[24] && h.subrange(24, 28)[1] == h[25]);
        assert(h.subrange(24, 28)[2] == h[26] && h.subrange(24, 28)[3] == h[27]);
    }
    assert(read_le32(h, 28) == read_le32(le32(rate * 2), 0)) by {
        assert(h.subrange(28, 32)[0] == h[28] && h.subrange(28, 32)[1] == h[29]);
        assert(h.subrange(28, 32)[2] == h[30] && h.subrange(28, 32)[3] == h[31]);
    }
    assert(read_le16(h, 32) == read_le16(le16(2), 0)) by {
        assert(h.subrange(32, 34)[0] == h[32] && h.subrange(32, 34)[1] == h[33]);
    }
    assert(read_le16(h, 34) == read_le16(le16(16), 0)) by {
        assert(h.subrange(34, 36)[0] == h[34] && h.subrange(34, 36)[1] == h[35]);
    }
    assert(read_le32(h, 40) == read_le32(le32(data_len), 0)) by {
        assert(h.subrange(40, 44)[0] == h[40] && h.subrange(40, 44)[1] == h[41]);
        assert(h.subrange(40, 44)[2] == h[42] && h.subrange(40, 44)[3] == h[43]);
    }
}

proof fn lemma_pcm_bytes_at(samples: Seq<i16>, k: int)
    requires
        0 <= k < samples.len(),
    ensures
        pcm_bytes(samples).len() == 2 * samples.len(),
        pcm_bytes(samples)[2 * k] == le16(sample_bits(samples[k]))[0],
        pcm_bytes(samples)[2 * k + 1] == le16(sample_bits(samples[k]))[1],
    decreases samples.len(),
{
    lemma_pcm_bytes_len(samples);
    let init = samples.drop_last();
    lemma_pcm_bytes_len(init);
    if k < samples.len() - 1 {
        lemma_pcm_bytes_at(init, k);
        assert(init[k] == samples[k]);
    }
}

/// Law of the samples of a WAV file: after any 44-byte header, the sample
/// `k` read back as a signed little-endian 16-bit value at byte `44 + 2k`
/// is the `k`-th sample given.
pub proof fn lemma_wav_samples_read_back(header: Seq<u8>, samples: Seq<i16>, k: int)
    requires
        header.len() == 44,
        0 <= k < samples.len(),
    ensures
        signed16(read_le16(header + pcm_bytes(samples), 44 + 2 * k)) == samples[k],
{
    lemma_pcm_bytes_at(samples, k);
    let w = header + pcm_bytes(samples);
    assert(w[44 + 2 * k] == pcm_bytes(samples)[2 * k]);
    assert(w[44 + 2 * k + 1] == pcm_bytes(samples)[2 * k + 1]);
    lemma_le16_read_back(sample_bits(samples[k]));
}

/// Law of a whole WAV file as `pcm_to_wav` lays it out: read back, its
/// format fields give PCM, one channel, `rate` samples and `2 * rate` bytes
/// per second, 2-byte blocks of 16 bits and the data size, and its samples
/// are those given, in order.
pub proof fn lemma_wav_file_fields(samples: Seq<i16>, rate: int)
    requires
        36 + data_len_field(samples.len() as int) <= u32::MAX,
        0 <= rate,
        2 * rate <= u32::MAX,
    ensures
        ({
            let w = wav_header(data_len_field(samples.len() as int), rate) + pcm_bytes(samples);
            &&& w.len() == 44 + 2 * samples.len()
            &&& read_le16(w, 20) == 1
            &&& read_le16(w, 22) == 1
            &&& read_le32(w, 24) == rate
            &&& read_le32(w, 28) == 2 * rate
            &&& read_le16(w, 32) == 2
            &&& read_le16(w, 34) == 16
            &&& read_le32(w, 40) == data_len_field(samples.len() as int)
            &&& forall|k: int|
                0 <= k < samples.len() ==> signed16(read_le16(w, 44 + 2 * k)) == #[trigger] samples[k]
        }),
{
    let d = data_len_field(samples.len() as int);
    let h = wav_header(d, rate);
    let w = h + pcm_bytes(samples);
    lemma_wav_header_fields(d, rate);
    lemma_pcm_bytes_len(samples);
    assert forall|j: int| 0 <= j < 44 implies w[j] == h[j] by {}
    assert forall|k: int| 0 <= k < samples.len() implies signed16(read_le16(w, 44 + 2 * k))
        == #[trigger] samples[k] by {
        lemma_wav_samples_read_back(h, samples, k);
    }
}

fn push_le16(out: &mut Vec<u8>, v: u32)
    requires
        v < 0x1_0000,
    ensures
        final(out)@ == old(out)@ + le16(v as int),
{
    out.push((v % 256) as u8);
    out.push(((v / 256) % 256) as u8);
    assert(final(out)@ =~= old(out)@ + le16(v as int));
}

fn push_le32(out: &mut Vec<u8>, v: u32)
    ensures
        final(out)@ == old(out)@ + le32(v as int),
{
    out.push((v % 256) as u8);
    out.push(((v / 256) % 256) as u8);
    out.push(((v / 0x1_0000) % 256) as u8);
    out.push(((v / 0x100_0000) % 256) as u8);
    assert(final(out)@ =~= old(out)@ + le32(v as int));
}

fn push_tag(out: &mut Vec<u8>, a: u8, b: u8, c: u8, d: u8)
    ensures
        final(out)@ == old(out)@ + seq![a, b, c, d],
{
    out.push(a);
    out.push(b);
    out.push(c);
    out.push(d);
    assert(final(out)@ =~= old(out)@ + seq![a, b, c, d]);
}

/// Encodes 16-bit mono samples at `sample_rate` as a WAV file: the RIFF
/// header followed by the samples in little-endian order.
pub fn pcm_to_wav(samples: &[i16], sample_rate: u32) -> (wav: Vec<u8>)
    requires
        2 * samples@.len() <= usize::MAX,
        36 + data_len_field(samples@.len() as int) <= u32::MAX,
        2 * sample_rate <= u32::MAX,
    ensures
        wav@ == wav_header(data_len_field(samples@.len() as int), sample_rate as int) + pcm_bytes(
            samples@,
        ),
        wav@.len() == 44 + 2 * samples@.len(),
        read_le16(wav@, 20) == 1,
        read_le16(wav@, 22) == 1,
        read_le32(wav@, 24) == sample_rate,
        read_le32(wav@, 28) == 2 * sample_rate,
        read_le16(wav@, 32) == 2,
        read_le16(wav@, 34) == 16,
        read_le32(wav@, 40) == data_len_field(samples@.len() as int),
        forall|k: int|
            0 <= k < samples@.len() ==> signed16(read_le16(wav@, 44 + 2 * k)) == #[trigger] samples@[k],
{
    let data_len = ((samples.len() * 2) as u64 % 0x1_0000_0000) as u32;
    let mut wav: Vec<u8> = Vec::new();
    push_tag(&mut wav, 0x52, 0x49, 0x46, 0x46);
    push_le32(&mut wav, 36 + data_len);
    push_tag(&mut wav, 0x57, 0x41, 0x56, 0x45);
    push_tag(&mut wav, 0x66, 0x6d, 0x74, 0x20);
    push_le32(&mut wav, 16);
    push_le16(&mut wav, 1);
    push_le16(&mut wav, 1);
    push_le32(&mut wav, sample_rate);
    push_le32(&mut wav, sample_rate * 2);
    push_le16(&mut wav, 2);
    push_le16(&mut wav, 16);
    push_tag(&mut wav, 0x64, 0x61, 0x74, 0x61);
    push_le32(&mut wav, data_len);
    let ghost header = wav@;
    assert(header =~= wav_header(data_len as int, sample_rate as int));
    let n = samples.len();
    let mut i: usize = 0;
    while i < n
        invariant
            n == samples@.len(),
            i <= n,
            wav@ == header + pcm_bytes(samples@.take(i as int)),
        decreases n - i,
    {
        assert(samples@.take(i + 1).drop_last() =~= samples@.take(i as int));
        let s = samples[i];
        let bits: u32 = if s < 0 {
            (s as i32 + 0x1_0000) as u32
        } else {
            s as u32
        };
        push_le16(&mut wav, bits);
        assert(wav@ =~= header + pcm_bytes(samples@.take(i + 1)));
        i = i + 1;
    }
    assert(samples@.take(n as int) =~= samples@);
    proof {
        lemma_wav_file_fields(samples@, sample_rate as int);
    }
    wav
}

} // verus!
