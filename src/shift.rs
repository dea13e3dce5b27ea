use vstd::prelude::*;

verus! {

/// Index at which the FFT shift splits a sequence of length `n`: the second
/// part, which comes first in the result, has `n / 2` entries.
pub open spec fn split_point(n: int) -> int {
    (n + 1) / 2
}

/// `s` with its two halves swapped so that the zero-frequency bin moves to
/// the middle; for odd lengths the first half is the longer one.
pub open spec fn fft_shifted<T>(s: Seq<T>) -> Seq<T> {
    s.subrange(split_point(s.len() as int), s.len() as int) + s.subrange(
        0,
        split_point(s.len() as int),
    )
}

/// Reorders a frequency-domain sequence so that zero frequency is centred:
/// entry 0 of the result is `spec[(n + 1) / 2]`.
pub fn fft_shift<T: Copy>(spec: &Vec<T>) -> (r: Vec<T>)
    ensures
        r@ == fft_shifted(spec@),
{
    let n = spec.len();
    let mid = n / 2 + n % 2;
    let mut r: Vec<T> = Vec::with_capacity(n);
    let mut i: usize = mid;
    while i < n
        invariant
            mid <= i <= n,
            n == spec@.len(),
            mid == split_point(n as int),
            r@ =~= spec@.subrange(mid as int, i as int),
        decreases n - i,
    {
        r.push(spec[i]);
        i = i + 1;
    }
    let mut j: usize = 0;
    while j < mid
        invariant
            j <= mid <= n,
            n == spec@.len(),
            mid == split_point(n as int),
            r@ =~= spec@.subrange(mid as int, n as int) + spec@.subrange(0, j as int),
        decreases mid - j,
    {
        r.push(spec[j]);
        j = j + 1;
    }
    r
}

/// On sequences of even length the FFT shift undoes itself: shifting twice
/// gives back the original sequence.
pub proof fn lemma_fft_shift_involution<T>(s: Seq<T>)
    requires
        s.len() % 2 == 0,
    ensures
        fft_shifted(fft_shifted(s)) == s,
{
    let t = fft_shifted(s);
    assert(t.len() == s.len());
    assert(fft_shifted(t) =~= s);
}

} // verus!
