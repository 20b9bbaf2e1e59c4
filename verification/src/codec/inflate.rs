//! Raw deflate decompression (no zlib header) of the compressed parts of a replay, driven
//! step by step through `flate2::Decompress`.
use vstd::prelude::*;
use vstd::string::StringExecFns;

use crate::error::{is_read_error, DecodeError, DecodeErrorView};

verus! {

/// `flate2::Decompress`, a raw deflate decompressor with its state.
#[verifier::external_type_specification]
#[verifier::external_body]
pub struct ExDecompress(flate2::Decompress);

/// The bytes `d` has taken from its inputs so far, in order.
pub uninterp spec fn inflater_consumed(d: flate2::Decompress) -> Seq<u8>;

/// The bytes `d` has written to its outputs so far, in order.
pub uninterp spec fn inflater_produced(d: flate2::Decompress) -> Seq<u8>;

/// What raw deflate decompression yields for `stream`, when those are exactly the bytes of a
/// complete deflate stream; it depends on these bytes alone.
pub uninterp spec fn raw_inflate(stream: Seq<u8>) -> Option<Seq<u8>>;

/// Whether the raw deflate decompressor, fed the bytes `s` from their start (more may
/// follow), meets data it rejects before the end of a stream; it depends on these bytes
/// alone.
pub uninterp spec fn inflate_rejects(s: Seq<u8>) -> bool;

/// The library's own copy of `flate2::Status`.
pub enum InflateStatus {
    /// More input may be needed, or the output buffer is full.
    Progress,
    /// No progress was possible with these buffers.
    BufError,
    /// The end of the deflate stream was reached.
    StreamEnd,
}

/// A new raw decompressor (`Decompress::new(false)`), which has consumed and produced nothing.
#[verifier::external_body]
fn new_raw_inflater() -> (d: flate2::Decompress)
    ensures
        inflater_consumed(d) == Seq::<u8>::empty(),
        inflater_produced(d) == Seq::<u8>::empty(),
{
    flate2::Decompress::new(false)
}

/// `Decompress::total_in`: the number of bytes consumed so far.
#[verifier::external_body]
fn inflater_total_in(d: &flate2::Decompress) -> (n: u64)
    requires
        inflater_consumed(*d).len() <= u64::MAX,
    ensures
        n == inflater_consumed(*d).len(),
{
    d.total_in()
}

/// `Decompress::total_out`: the number of bytes produced so far.
#[verifier::external_body]
fn inflater_total_out(d: &flate2::Decompress) -> (n: u64)
    requires
        inflater_produced(*d).len() <= u64::MAX,
    ensures
        n == inflater_produced(*d).len(),
{
    d.total_out()
}

/// `after` has taken a prefix of `input` and written a prefix of `output` since `before`.
pub open spec fn step_effect(before: flate2::Decompress, after: flate2::Decompress, input: Seq<u8>, output: Seq<u8>) -> bool {
    exists|k: int, w: int|
        0 <= k <= input.len() && 0 <= w <= output.len() && inflater_consumed(after) == inflater_consumed(before)
            + input.subrange(0, k) && inflater_produced(after) == inflater_produced(before) + output.subrange(0, w)
}

/// One `Decompress::decompress` call with `FlushDecompress::None`, where `seen` below is what
/// it had consumed before followed by `input`. It takes a prefix of `input` and writes a
/// prefix of `output`, which keeps its length. It reports an error only when the
/// decompressor rejects `seen`, and then no continuation of `seen` is a complete stream; when
/// it rejects `seen` it does not report the end of the stream and, given room in `output`,
/// it either reports the error or takes or writes at least one byte. When it reports the
/// end of the stream, what it has consumed is exactly one complete stream, no longer one
/// once anything follows it, and what it has produced in all is its decompression. When a
/// prefix of `seen` that keeps all it had consumed before is exactly one complete stream, it
/// reports no error, what it has produced in all is a prefix of that stream's decompression,
/// what it has consumed stays within that prefix, it reports the end only once it has
/// taken all of that prefix, and otherwise, given room in `output`, it takes or writes at
/// least one byte (it takes as much input as it needs and writes as much output as it can).
#[verifier::external_body]
fn inflate_step(d: &mut flate2::Decompress, input: &[u8], output: &mut Vec<u8>) -> (r: Result<InflateStatus, flate2::DecompressError>)
    requires
        inflater_consumed(*old(d)).len() + input@.len() <= u64::MAX,
        inflater_produced(*old(d)).len() + old(output)@.len() <= u64::MAX,
    ensures
        final(output)@.len() == old(output)@.len(),
        step_effect(*old(d), *final(d), input@, final(output)@),
        r is Err ==> inflate_rejects(inflater_consumed(*old(d)) + input@) && forall|t: Seq<u8>|
            #[trigger] raw_inflate(inflater_consumed(*old(d)) + input@ + t) is None,
        inflate_rejects(inflater_consumed(*old(d)) + input@) ==> {
            &&& !(r matches Ok(InflateStatus::StreamEnd))
            &&& r is Ok && old(output)@.len() > 0 ==> inflater_consumed(*final(d)).len() + inflater_produced(*final(d)).len()
                > inflater_consumed(*old(d)).len() + inflater_produced(*old(d)).len()
        },
        r matches Ok(InflateStatus::StreamEnd) ==> {
            &&& raw_inflate(inflater_consumed(*final(d))) == Some(inflater_produced(*final(d)))
            &&& forall|t: Seq<u8>| t.len() > 0 ==> #[trigger] raw_inflate(inflater_consumed(*final(d)) + t) is None
        },
        forall|k: int|
            0 <= k <= input@.len() && #[trigger] raw_inflate(inflater_consumed(*old(d)) + input@.subrange(0, k)) is Some
                ==> {
                let out = raw_inflate(inflater_consumed(*old(d)) + input@.subrange(0, k))->Some_0;
                &&& r is Ok
                &&& inflater_produced(*final(d)).len() <= out.len()
                &&& inflater_produced(*final(d)) == out.subrange(0, inflater_produced(*final(d)).len() as int)
                &&& inflater_consumed(*final(d)).len() <= inflater_consumed(*old(d)).len() + k
                &&& r matches Ok(InflateStatus::StreamEnd) ==> inflater_consumed(*final(d)) == inflater_consumed(*old(d))
                    + input@.subrange(0, k)
                &&& !(r matches Ok(InflateStatus::StreamEnd)) && old(output)@.len() > 0 ==> inflater_consumed(*final(d)).len()
                    + inflater_produced(*final(d)).len() > inflater_consumed(*old(d)).len() + inflater_produced(*old(d)).len()
            },
{
    match d.decompress(input, output.as_mut_slice(), flate2::FlushDecompress::None) {
        Ok(flate2::Status::Ok) => Ok(InflateStatus::Progress),
        Ok(flate2::Status::BufError) => Ok(InflateStatus::BufError),
        Ok(flate2::Status::StreamEnd) => Ok(InflateStatus::StreamEnd),
        Err(e) => Err(e),
    }
}

/// Whether the output of a decompression stayed below the limit that memory sizes can count
/// (`usize::MAX` less one output buffer) before it succeeded or failed.
pub enum OutputLimit {
    Within,
    Exceeded,
}

/// `input` is exactly one complete raw deflate stream, and its decompression leaves room for
/// one more output buffer below `usize::MAX`.
pub open spec fn inflates(input: Seq<u8>) -> bool {
    raw_inflate(input) matches Some(out) && out.len() + CHUNK_SIZE <= usize::MAX
}

/// Some proper prefix of `input` is exactly one complete raw deflate stream.
pub open spec fn has_complete_prefix(input: Seq<u8>) -> bool {
    exists|k: int| 0 <= k < input.len() && #[trigger] raw_inflate(input.subrange(0, k)) is Some
}

/// The outcome of decompressing `input`: its decompression when [`inflates`] holds; a
/// decompression that outgrew the limit (`limit` is `Exceeded`) is an overflow; otherwise
/// bytes after a complete stream are trailing data, data the decompressor rejects is a
/// compression error, and the rest stopped before its end.
pub open spec fn inflate_outcome(input: Seq<u8>, limit: OutputLimit, context: Seq<char>) -> Result<Seq<u8>, DecodeErrorView> {
    if inflates(input) {
        Ok(raw_inflate(input)->Some_0)
    } else if limit is Exceeded {
        Err(DecodeErrorView::IntegerOverflow { context })
    } else if has_complete_prefix(input) {
        Err(DecodeErrorView::TrailingCompressedData { context })
    } else if inflate_rejects(input) {
        Err(DecodeErrorView::Compression { context })
    } else {
        Err(DecodeErrorView::IncompleteCompression { context })
    }
}

/// `r` reports the outcome `o`.
pub open spec fn bytes_result_is(r: Result<Vec<u8>, DecodeError>, o: Result<Seq<u8>, DecodeErrorView>) -> bool {
    match o {
        Ok(out) => r matches Ok(v) && v@ == out,
        Err(e) => r matches Err(x) && x@ == e && is_read_error(e),
    }
}

/// Size of the buffer each decompression step writes into.
pub const CHUNK_SIZE: usize = 16384;

/// Decompresses `input`, which must be exactly one raw deflate stream. It succeeds exactly
/// when [`inflates`] holds, with `raw_inflate(input)`. Otherwise, unless its output outgrew
/// what memory sizes can count, it reports bytes after a complete stream as trailing data,
/// data the decompressor rejects as a compression error, and anything else as a stream that
/// stopped before its end. A success, trailing data and rejected data all leave no
/// continuation of `input` that is one complete stream.
pub fn inflate_raw(input: &[u8], context: &str) -> (r: Result<Vec<u8>, DecodeError>)
    ensures
        exists|limit: OutputLimit| bytes_result_is(r, inflate_outcome(input@, limit, context@)),
        (r is Ok || (r matches Err(e) && (e@ is Compression || e@ is TrailingCompressedData))) ==> forall|t: Seq<u8>|
            t.len() > 0 ==> #[trigger] raw_inflate(input@ + t) is None,
{
    let mut decompressor = new_raw_inflater();
    let mut position: usize = 0;
    let mut output: Vec<u8> = Vec::new();
    let mut chunk: Vec<u8> = vec![0u8; CHUNK_SIZE];
    loop
        invariant
            position <= input@.len(),
            inflater_consumed(decompressor) == input@.subrange(0, position as int),
            inflater_produced(decompressor) == output@,
            chunk@.len() == CHUNK_SIZE,
            forall|k: int|
                0 <= k <= input@.len() && #[trigger] raw_inflate(input@.subrange(0, k)) is Some ==> {
                    &&& position <= k
                    &&& output@.len() <= raw_inflate(input@.subrange(0, k))->Some_0.len()
                    &&& output@ == raw_inflate(input@.subrange(0, k))->Some_0.subrange(0, output@.len() as int)
                },
        decreases input@.len() - position, usize::MAX - output@.len(),
    {
        assert(input@.subrange(0, input@.len() as int) =~= input@);
        if output.len() > usize::MAX - CHUNK_SIZE || output.len() as u64 > u64::MAX - CHUNK_SIZE as u64 {
            let e = DecodeError::IntegerOverflow { context: String::from_str(context) };
            assert(bytes_result_is(Err(e), inflate_outcome(input@, OutputLimit::Exceeded, context@)));
            return Err(e);
        }
        let input_before = inflater_total_in(&decompressor);
        let output_before = inflater_total_out(&decompressor);
        let remaining_input = &input[position..input.len()];
        let ghost old_consumed = inflater_consumed(decompressor);
        let ghost old_produced = inflater_produced(decompressor);
        let ghost old_position = position as int;
        assert(old_consumed + remaining_input@ =~= input@);
        assert forall|k: int| old_position <= k <= input@.len() implies #[trigger] (old_consumed + remaining_input@.subrange(0, k - old_position))
            == input@.subrange(0, k) by {
            assert(old_consumed + remaining_input@.subrange(0, k - old_position) =~= input@.subrange(0, k));
        }
        let status = inflate_step(&mut decompressor, remaining_input, &mut chunk);
        let ghost (k, w) = choose|k: int, w: int|
            0 <= k <= remaining_input@.len() && 0 <= w <= CHUNK_SIZE && inflater_consumed(decompressor)
                == old_consumed + remaining_input@.subrange(0, k) && inflater_produced(decompressor)
                == old_produced + chunk@.subrange(0, w);
        let input_after = inflater_total_in(&decompressor);
        let output_after = inflater_total_out(&decompressor);
        let consumed_input = (input_after - input_before) as usize;
        let produced_output = (output_after - output_before) as usize;
        assert(consumed_input == k && produced_output == w);
        // What the step says about every complete prefix of the input.
        assert forall|j: int| 0 <= j <= input@.len() && #[trigger] raw_inflate(input@.subrange(0, j)) is Some implies {
            let out = raw_inflate(input@.subrange(0, j))->Some_0;
            &&& status is Ok
            &&& inflater_produced(decompressor).len() <= out.len()
            &&& inflater_produced(decompressor) == out.subrange(0, inflater_produced(decompressor).len() as int)
            &&& old_position + k <= j
            &&& status matches Ok(InflateStatus::StreamEnd) ==> old_position + k == j
            &&& !(status matches Ok(InflateStatus::StreamEnd)) ==> k + w > 0
        } by {
            assert(old_position <= j);
            assert(old_consumed + remaining_input@.subrange(0, j - old_position) == input@.subrange(0, j));
            assert(raw_inflate(old_consumed + remaining_input@.subrange(0, j - old_position)) is Some);
        }
        let status = match status {
            Ok(s) => s,
            Err(source) => {
                let e = DecodeError::Compression { context: String::from_str(context), source };
                assert(inflate_rejects(input@));
                assert(!has_complete_prefix(input@));
                assert forall|t: Seq<u8>| t.len() > 0 implies #[trigger] raw_inflate(input@ + t) is None by {
                    assert(raw_inflate(old_consumed + remaining_input@ + t) is None);
                    assert(old_consumed + remaining_input@ + t =~= input@ + t);
                }
                assert(bytes_result_is(Err(e), inflate_outcome(input@, OutputLimit::Within, context@)));
                return Err(e);
            },
        };
        let mut i: usize = 0;
        while i < produced_output
            invariant
                i <= produced_output,
                produced_output <= chunk@.len(),
                output@ == old_produced + chunk@.subrange(0, i as int),
            decreases produced_output - i,
        {
            output.push(chunk[i]);
            i = i + 1;
            assert(output@ =~= old_produced + chunk@.subrange(0, i as int));
        }
        assert(input@.subrange(0, position as int) + remaining_input@.subrange(0, k) =~= input@.subrange(0, position + k));
        position = position + consumed_input;
        match status {
            InflateStatus::StreamEnd => {
                let ghost done = input@.subrange(0, position as int);
                assert(raw_inflate(done) == Some(output@));
                if position < input.len() {
                    let e = DecodeError::TrailingCompressedData { context: String::from_str(context) };
                    assert(input@ =~= done + input@.subrange(position as int, input@.len() as int));
                    assert(raw_inflate(input@) is None);
                    assert(has_complete_prefix(input@));
                    assert forall|t: Seq<u8>| t.len() > 0 implies #[trigger] raw_inflate(input@ + t) is None by {
                        assert(input@ + t =~= done + (input@.subrange(position as int, input@.len() as int) + t));
                        assert(raw_inflate(done + (input@.subrange(position as int, input@.len() as int) + t)) is None);
                    }
                    assert(bytes_result_is(Err(e), inflate_outcome(input@, OutputLimit::Within, context@)));
                    return Err(e);
                }
                assert(done =~= input@);
                if output.len() > usize::MAX - CHUNK_SIZE {
                    let e = DecodeError::IntegerOverflow { context: String::from_str(context) };
                    assert(bytes_result_is(Err(e), inflate_outcome(input@, OutputLimit::Exceeded, context@)));
                    return Err(e);
                }
                assert(bytes_result_is(Ok(output), inflate_outcome(input@, OutputLimit::Within, context@)));
                return Ok(output);
            },
            _ => {
                if consumed_input == 0 && produced_output == 0 {
                    let e = DecodeError::IncompleteCompression { context: String::from_str(context) };
                    assert(!inflate_rejects(old_consumed + remaining_input@));
                    assert(!has_complete_prefix(input@));
                    assert(bytes_result_is(Err(e), inflate_outcome(input@, OutputLimit::Within, context@)));
                    return Err(e);
                }
            },
        }
    }
}

} // verus!
