//! From the samples of a waveform to its records, one for each sample.

use vstd::prelude::*;

verus! {

/// Whether `records` are what `convert` makes of the samples of `payload`:
/// as many records as samples, and the record at each position made from
/// that position and the byte that stands there.
pub open spec fn converted<R, F: Fn(usize, u8) -> R>(
    payload: Seq<u8>,
    convert: F,
    records: Seq<R>,
) -> bool {
    &&& records.len() == payload.len()
    &&& forall|i: int|
        0 <= i < payload.len() ==> call_ensures(
            convert,
            (i as usize, payload[i]),
            #[trigger] records[i],
        )
}

/// Makes one record of each sample, in the order of the samples.
///
/// `convert` is given the position of a sample, counted from zero, and its
/// raw byte. How it scales them is its own matter; the positions, the order
/// and the number of the records are settled here.
pub fn convert_samples<R, F: Fn(usize, u8) -> R>(payload: &[u8], convert: F) -> (records: Vec<R>)
    requires
        forall|i: int|
            0 <= i < payload@.len() ==> call_requires(convert, (i as usize, #[trigger] payload@[i])),
    ensures
        converted(payload@, convert, records@),
{
    let mut records: Vec<R> = Vec::new();
    let mut i: usize = 0;
    while i < payload.len()
        invariant
            i <= payload@.len(),
            forall|k: int|
                0 <= k < payload@.len() ==> call_requires(
                    convert,
                    (k as usize, #[trigger] payload@[k]),
                ),
            converted(payload@.take(i as int), convert, records@),
        decreases payload@.len() - i,
    {
        let record: R = convert(i, payload[i]);
        records.push(record);
        i = i + 1;
    }
    assert(payload@.take(i as int) =~= payload@);
    records
}

} // verus!
