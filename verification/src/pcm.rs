//! Sixteen-bit samples and the bytes that carry them.

use vstd::endian::endianness;
use vstd::prelude::*;

verus! {

/// Which byte of a sample comes first.
#[derive(Debug, Clone, Copy, PartialEq, Eq, Structural)]
pub enum ByteOrder {
    Little,
    Big,
}

/// The sample with these two bytes, in two's complement.
pub open spec fn sample_of(low: u8, high: u8) -> i16 {
    let word = low + 256 * high;
    if word < 32768 {
        word as i16
    } else {
        (word - 65536) as i16
    }
}

/// The low byte of a sample in two's complement.
pub open spec fn low_byte(sample: i16) -> u8 {
    (sample as int % 256) as u8
}

/// The high byte of a sample in two's complement.
pub open spec fn high_byte(sample: i16) -> u8 {
    ((sample as int / 256) % 256) as u8
}

/// The samples that the bytes carry. A last byte without a partner is left out.
pub open spec fn samples_of(bytes: Seq<u8>, order: ByteOrder) -> Seq<i16> {
    Seq::new(
        bytes.len() / 2,
        |i: int|
            match order {
                ByteOrder::Little => sample_of(bytes[2 * i], bytes[2 * i + 1]),
                ByteOrder::Big => sample_of(bytes[2 * i + 1], bytes[2 * i]),
            },
    )
}

/// The bytes that carry the samples.
pub open spec fn bytes_of(samples: Seq<i16>, order: ByteOrder) -> Seq<u8> {
    Seq::new(
        2 * samples.len(),
        |i: int|
            if (i % 2 == 0) == (order is Little) {
                low_byte(samples[i / 2])
            } else {
                high_byte(samples[i / 2])
            },
    )
}

/// Reads the samples that the bytes carry.
pub fn decode_samples(bytes: &[u8], order: ByteOrder) -> (samples: Vec<i16>)
    ensures
        samples@ == samples_of(bytes@, order),
{
    let mut samples: Vec<i16> = Vec::new();
    let mut i: usize = 0;
    while bytes.len() - i >= 2
        invariant
            i <= bytes.len(),
            i == 2 * samples.len(),
            samples@ == samples_of(bytes@, order).take(samples.len() as int),
        decreases bytes.len() - i,
    {
        let (low, high): (u8, u8) = match order {
            ByteOrder::Little => (bytes[i], bytes[i + 1]),
            ByteOrder::Big => (bytes[i + 1], bytes[i]),
        };
        let word: i32 = low as i32 + 256 * (high as i32);
        let sample: i16 = if word < 32768 {
            word as i16
        } else {
            (word - 65536) as i16
        };
        proof {
            let k = samples@.len() as int;
            assert(samples_of(bytes@, order).take(k + 1) =~= samples_of(bytes@, order).take(k).push(
                samples_of(bytes@, order)[k],
            ));
        }
        samples.push(sample);
        i += 2;
    }
    samples
}

/// Writes the samples out as bytes.
pub fn encode_samples(samples: &[i16], order: ByteOrder) -> (bytes: Vec<u8>)
    ensures
        bytes@ == bytes_of(samples@, order),
{
    let mut bytes: Vec<u8> = Vec::new();
    for i in 0..samples.len()
        invariant
            bytes@ == bytes_of(samples@, order).take(2 * i),
    {
        let value: i32 = samples[i] as i32;
        let word: i32 = if value < 0 {
            value + 65536
        } else {
            value
        };
        let low: u8 = (word % 256) as u8;
        let high: u8 = (word / 256) as u8;
        let ghost before = bytes@;
        match order {
            ByteOrder::Little => {
                bytes.push(low);
                bytes.push(high);
            },
            ByteOrder::Big => {
                bytes.push(high);
                bytes.push(low);
            },
        }
        proof {
            let all = bytes_of(samples@, order);
            assert((2 * i) / 2 == i && (2 * i + 1) / 2 == i);
            assert((2 * i) % 2 == 0 && (2 * i + 1) % 2 == 1);
            assert(all.take(2 * (i + 1)) =~= before.push(all[2 * i]).push(all[2 * i + 1]));
        }
    }
    proof {
        assert(bytes_of(samples@, order).take(2 * samples.len()) =~= bytes_of(samples@, order));
    }
    bytes
}

/// `u16::to_ne_bytes`: the two bytes of the number in the machine's order, the low byte first
/// on a little-endian machine and the high byte first on another.
#[verifier::external_body]
fn native_bytes(number: u16) -> (bytes: [u8; 2])
    ensures
        ({
            let low = (number % 256) as u8;
            let high = (number / 256) as u8;
            bytes@ == if endianness() is Little {
                seq![low, high]
            } else {
                seq![high, low]
            }
        }),
{
    number.to_ne_bytes()
}

/// The order in which these bytes carry the sample 1.
pub fn order_of(bytes: [u8; 2]) -> (order: ByteOrder)
    requires
        bytes@ == bytes_of(seq![1i16], ByteOrder::Little) || bytes@ == bytes_of(
            seq![1i16],
            ByteOrder::Big,
        ),
    ensures
        bytes@ == bytes_of(seq![1i16], order),
{
    if bytes[0] == 1 {
        ByteOrder::Little
    } else {
        ByteOrder::Big
    }
}

/// The order in which this machine keeps the bytes of a number.
pub fn native_order() -> (order: ByteOrder)
    ensures
        order is Little <==> endianness() is Little,
{
    let bytes = native_bytes(1);
    proof {
        assert(bytes_of(seq![1i16], ByteOrder::Little) =~= seq![1u8, 0u8]);
        assert(bytes_of(seq![1i16], ByteOrder::Big) =~= seq![0u8, 1u8]);
        assert(seq![1u8, 0u8][0] != seq![0u8, 1u8][0]);
    }
    order_of(bytes)
}

/// Samples survive the way through bytes.
pub proof fn law_samples_survive_bytes(samples: Seq<i16>, order: ByteOrder)
    ensures
        samples_of(bytes_of(samples, order), order) == samples,
{
    let bytes = bytes_of(samples, order);
    assert forall|i: int| 0 <= i < samples.len() implies samples_of(bytes, order)[i]
        == samples[i] by {
        assert((2 * i) / 2 == i && (2 * i + 1) / 2 == i);
        assert((2 * i) % 2 == 0 && (2 * i + 1) % 2 == 1);
    }
    assert(samples_of(bytes, order) =~= samples);
}

/// An even number of bytes survives the way through samples.
pub proof fn law_bytes_survive_samples(bytes: Seq<u8>, order: ByteOrder)
    requires
        bytes.len() % 2 == 0,
    ensures
        bytes_of(samples_of(bytes, order), order) == bytes,
{
    let samples = samples_of(bytes, order);
    assert forall|i: int| 0 <= i < bytes.len() implies bytes_of(samples, order)[i]
        == bytes[i] by {
        assert(i == 2 * (i / 2) + i % 2);
        assert(0 <= i / 2 < samples.len());
    }
    assert(bytes_of(samples, order) =~= bytes);
}

/// A sample is the number that its two bytes make, in two's complement: the low byte counts
/// once and the high byte two hundred and fifty-six times, up to a multiple of what two bytes can
/// tell apart. The order only says which byte comes first.
pub proof fn law_samples_are_numbers(first: u8, second: u8)
    ensures
        samples_of(seq![first, second], ByteOrder::Little).len() == 1,
        (samples_of(seq![first, second], ByteOrder::Little)[0] - (first + 256 * second)) % 65536
            == 0,
        samples_of(seq![first, second], ByteOrder::Big) == samples_of(
            seq![second, first],
            ByteOrder::Little,
        ),
{
    let word = first + 256 * second;
    let sample = samples_of(seq![first, second], ByteOrder::Little)[0];
    assert(sample == sample_of(first, second));
    if word < 32768 {
        assert(sample - word == 0);
    } else {
        assert(sample - word == -65536);
    }
    assert(samples_of(seq![first, second], ByteOrder::Big) =~= samples_of(
        seq![second, first],
        ByteOrder::Little,
    ));
}

/// Samples are read pair by pair: an even number of bytes and more bytes hold the samples of the
/// one and of the other, and a single byte holds none.
pub proof fn law_samples_are_read_in_pairs(
    first: Seq<u8>,
    second: Seq<u8>,
    order: ByteOrder,
    half: u8,
)
    requires
        first.len() % 2 == 0,
    ensures
        samples_of(first + second, order) == samples_of(first, order) + samples_of(second, order),
        samples_of(seq![half], order).len() == 0,
{
    assert(samples_of(first + second, order) =~= samples_of(first, order) + samples_of(
        second,
        order,
    ));
}

} // verus!
