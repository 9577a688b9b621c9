//! Fragments: how a message is padded and cut into pieces of one size, how
//! a piece is written to bytes and read back, and how pieces that arrive in
//! any order give the message again.

use vstd::prelude::*;

verus! {

/// A message id is five bytes long.
pub const MESSAGE_ID_LIMIT: u64 = 0x100_0000_0000;

/// Bytes of a fragment that precede its data: message id, count of fragments, index.
pub const FRAGMENT_HEADER_SIZE: usize = 9;

/// The most fragments that one message may have.
pub const MAX_FRAGMENTS: usize = 0xffff;

/// Why a message could not be cut into fragments, or a fragment not read.
#[derive(Debug, Clone, Copy, PartialEq, Eq, Structural)]
pub enum FragmentError {
    /// The fragment size is zero.
    ZeroFragmentSize,
    /// The message id does not fit in five bytes.
    InvalidMessageId,
    /// The message needs more fragments than the header can count.
    MessageTooLong,
    /// The bytes are too short to hold a header, or the header contradicts itself.
    Malformed,
}

/// One piece of a message.
#[derive(Debug, Clone, PartialEq, Eq)]
pub struct Fragment {
    pub message_id: u64,
    pub total: u16,
    pub index: u16,
    pub data: Vec<u8>,
}

/// The mathematical content of a fragment.
pub struct FragmentView {
    pub message_id: u64,
    pub total: u16,
    pub index: u16,
    pub data: Seq<u8>,
}

impl View for Fragment {
    type V = FragmentView;

    open spec fn view(&self) -> FragmentView {
        FragmentView {
            message_id: self.message_id,
            total: self.total,
            index: self.index,
            data: self.data@,
        }
    }
}

impl FragmentView {
    /// The header of a fragment is consistent.
    pub open spec fn wf(self) -> bool {
        self.message_id < MESSAGE_ID_LIMIT && self.index < self.total
    }

    /// The key under which the fragment's ack is tracked.
    pub open spec fn id(self) -> u128 {
        (self.message_id * 0x1_0000 + self.index) as u128
    }
}

impl Fragment {
    /// The key under which the fragment's ack is tracked: message id and index.
    pub fn id(&self) -> (id: u128)
        ensures
            id == self@.id(),
    {
        self.message_id as u128 * 0x1_0000 + self.index as u128
    }
}

/// `count` zero bytes.
pub open spec fn zeros(count: nat) -> Seq<u8> {
    Seq::new(count, |i: int| 0u8)
}

/// How many zero bytes follow the marker so that the whole is a multiple of `size`.
pub open spec fn padding_zeros(len: nat, size: nat) -> nat
    recommends
        size > 0,
{
    ((size as int - ((len + 1) as int % size as int)) % size as int) as nat
}

/// The message followed by a `1` and as many zeros as fill the last fragment.
pub open spec fn padded(payload: Seq<u8>, size: nat) -> Seq<u8> {
    payload + seq![1u8] + zeros(padding_zeros(payload.len(), size))
}

/// The message inside padded bytes: what precedes the last `1`, provided
/// that only zeros follow it.
pub open spec fn unpadded(bytes: Seq<u8>) -> Option<Seq<u8>>
    decreases bytes.len(),
{
    if bytes.len() == 0 {
        None
    } else if bytes.last() == 0 {
        unpadded(bytes.drop_last())
    } else if bytes.last() == 1 {
        Some(bytes.drop_last())
    } else {
        None
    }
}

/// Padding can be undone, however many zeros were added.
pub proof fn lemma_unpadded_after_zeros(payload: Seq<u8>, count: nat)
    ensures
        unpadded(payload + seq![1u8] + zeros(count)) == Some(payload),
    decreases count,
{
    let whole = payload + seq![1u8] + zeros(count);
    if count == 0 {
        assert(whole.drop_last() =~= payload);
    } else {
        assert(whole.drop_last() =~= payload + seq![1u8] + zeros((count - 1) as nat));
        lemma_unpadded_after_zeros(payload, (count - 1) as nat);
    }
}

/// Removing the padding of a padded message gives the message.
pub proof fn lemma_unpadded_padded(payload: Seq<u8>, size: nat)
    ensures
        unpadded(padded(payload, size)) == Some(payload),
{
    lemma_unpadded_after_zeros(payload, padding_zeros(payload.len(), size));
}

/// The length of a padded message is a positive multiple of the fragment size.
pub proof fn lemma_padded_len(len: nat, size: nat)
    requires
        size > 0,
    ensures
        ((len + 1 + padding_zeros(len, size)) as int) % (size as int) == 0,
        len + 1 + padding_zeros(len, size) >= size,
        padding_zeros(len, size) < size,
{
    let s = size as int;
    let m = (len + 1) as int;
    let r = m % s;
    let q = m / s;
    assert(m == q * s + r && 0 <= r < s) by (nonlinear_arith)
        requires
            s > 0,
            r == m % s,
            q == m / s,
    ;
    assert(q >= 0) by (nonlinear_arith)
        requires
            q == m / s,
            s > 0,
            m >= 0,
    ;
    if r == 0 {
        assert((s - r) % s == 0) by (nonlinear_arith)
            requires
                s > 0,
                r == 0,
        ;
        assert(q * s >= s) by (nonlinear_arith)
            requires
                m == q * s,
                m > 0,
                s > 0,
                q >= 0,
        ;
    } else {
        assert((s - r) % s == s - r) by (nonlinear_arith)
            requires
                0 < r < s,
        ;
        assert((q * s + s) % s == 0) by (nonlinear_arith)
            requires
                s > 0,
                q >= 0,
        ;
        assert(q * s + s >= s) by (nonlinear_arith)
            requires
                q >= 0,
                s > 0,
        ;
    }
}

/// Pads `payload` to a multiple of `fragment_size`.
pub fn pad(payload: &[u8], fragment_size: usize) -> (bytes: Vec<u8>)
    requires
        fragment_size > 0,
    ensures
        bytes@ == padded(payload@, fragment_size as nat),
        bytes@.len() % (fragment_size as nat) == 0,
        bytes@.len() >= fragment_size,
        bytes@.len() == payload@.len() + 1 + padding_zeros(payload@.len(), fragment_size as nat),
{
    proof {
        lemma_padded_len(payload@.len(), fragment_size as nat);
    }
    let mut bytes: Vec<u8> = Vec::new();
    let mut i: usize = 0;
    while i < payload.len()
        invariant
            i <= payload@.len(),
            bytes@ == payload@.subrange(0, i as int),
        decreases payload@.len() - i,
    {
        bytes.push(payload[i]);
        assert(bytes@ =~= payload@.subrange(0, i + 1));
        i += 1;
    }
    assert(bytes@ =~= payload@);
    bytes.push(1u8);
    let rest = payload.len() % fragment_size;
    let used = if rest + 1 == fragment_size {
        0
    } else {
        rest + 1
    };
    assert(used == (payload@.len() + 1) as int % fragment_size as int) by (nonlinear_arith)
        requires
            fragment_size > 0,
            rest == payload@.len() as int % fragment_size as int,
            used == if rest + 1 == fragment_size {
                0int
            } else {
                rest + 1
            },
    ;
    let fill = (fragment_size - used) % fragment_size;
    let mut k: usize = 0;
    while k < fill
        invariant
            k <= fill,
            fill < fragment_size,
            bytes@ == payload@ + seq![1u8] + zeros(k as nat),
        decreases fill - k,
    {
        bytes.push(0u8);
        assert(bytes@ =~= payload@ + seq![1u8] + zeros((k + 1) as nat));
        k += 1;
    }
    bytes
}

/// Removes the padding; `None` says that the bytes are not a padded message.
pub fn unpad(bytes: &[u8]) -> (payload: Option<Vec<u8>>)
    ensures
        payload is Some <==> unpadded(bytes@) is Some,
        payload is Some ==> payload.unwrap()@ == unpadded(bytes@).unwrap(),
{
    let mut end: usize = bytes.len();
    assert(bytes@.subrange(0, end as int) =~= bytes@);
    while end > 0 && bytes[end - 1] == 0
        invariant
            end <= bytes@.len(),
            unpadded(bytes@) == unpadded(bytes@.subrange(0, end as int)),
        decreases end,
    {
        assert(bytes@.subrange(0, end as int).drop_last() =~= bytes@.subrange(0, end - 1));
        end -= 1;
    }
    if end == 0 {
        return None;
    }
    if bytes[end - 1] != 1 {
        return None;
    }
    let mut payload: Vec<u8> = Vec::new();
    let mut i: usize = 0;
    while i < end - 1
        invariant
            0 < end <= bytes@.len(),
            i <= end - 1,
            payload@ == bytes@.subrange(0, i as int),
        decreases end - 1 - i,
    {
        payload.push(bytes[i]);
        assert(payload@ =~= bytes@.subrange(0, i + 1));
        i += 1;
    }
    assert(bytes@.subrange(0, end as int).drop_last() =~= bytes@.subrange(0, end - 1));
    Some(payload)
}

/// The fragments of a message: piece `i` holds bytes `i * size` to `(i + 1) * size` of the padded message.
pub open spec fn fragments_of(payload: Seq<u8>, message_id: u64, size: nat) -> Seq<FragmentView>
    recommends
        size > 0,
{
    let bytes = padded(payload, size);
    let total = bytes.len() / size;
    Seq::new(
        total,
        |i: int|
            FragmentView {
                message_id,
                total: total as u16,
                index: i as u16,
                data: bytes.subrange(i * size, (i + 1) * size),
            },
    )
}

/// The views of a vector of fragments.
pub open spec fn views(fragments: Seq<Fragment>) -> Seq<FragmentView> {
    Seq::new(fragments.len(), |i: int| fragments[i]@)
}

/// Cuts `payload` into fragments of `fragment_size` bytes of data each.
pub fn split_message(payload: &[u8], message_id: u64, fragment_size: usize) -> (res: Result<
    Vec<Fragment>,
    FragmentError,
>)
    ensures
        fragment_size == 0 ==> res == Err::<Vec<Fragment>, FragmentError>(
            FragmentError::ZeroFragmentSize,
        ),
        fragment_size > 0 && message_id >= MESSAGE_ID_LIMIT ==> res == Err::<
            Vec<Fragment>,
            FragmentError,
        >(FragmentError::InvalidMessageId),
        fragment_size > 0 && message_id < MESSAGE_ID_LIMIT && padded(
            payload@,
            fragment_size as nat,
        ).len() / (fragment_size as nat) > MAX_FRAGMENTS ==> res == Err::<Vec<Fragment>,
            FragmentError>(
            FragmentError::MessageTooLong,
        ),
        fragment_size > 0 && message_id < MESSAGE_ID_LIMIT && padded(
            payload@,
            fragment_size as nat,
        ).len() / (fragment_size as nat) <= MAX_FRAGMENTS ==> res is Ok && views(res->Ok_0@)
            == fragments_of(payload@, message_id, fragment_size as nat),
        res is Ok ==> forall|i: int|
            0 <= i < res->Ok_0@.len() ==> (#[trigger] res->Ok_0@[i])@.wf()
                && res->Ok_0@[i]@.data.len()
                == fragment_size,
{
    if fragment_size == 0 {
        return Err(FragmentError::ZeroFragmentSize);
    }
    if message_id >= MESSAGE_ID_LIMIT {
        return Err(FragmentError::InvalidMessageId);
    }
    let bytes = pad(payload, fragment_size);
    let total = bytes.len() / fragment_size;
    if total > MAX_FRAGMENTS {
        return Err(FragmentError::MessageTooLong);
    }
    assert(bytes@.len() == total * fragment_size) by (nonlinear_arith)
        requires
            bytes@.len() % (fragment_size as nat) == 0,
            total == bytes@.len() / (fragment_size as nat),
            fragment_size > 0,
    ;
    let mut fragments: Vec<Fragment> = Vec::new();
    let mut i: usize = 0;
    while i < total
        invariant
            i <= total <= MAX_FRAGMENTS,
            fragment_size > 0,
            message_id < MESSAGE_ID_LIMIT,
            bytes@.len() == total * fragment_size,
            bytes@.len() <= usize::MAX,
            bytes@ == padded(payload@, fragment_size as nat),
            total == bytes@.len() / (fragment_size as nat),
            fragments@.len() == i,
            forall|j: int|
                0 <= j < i ==> (#[trigger] fragments@[j])@ == fragments_of(
                    payload@,
                    message_id,
                    fragment_size as nat,
                )[j],
            forall|j: int|
                0 <= j < i ==> (#[trigger] fragments@[j])@.wf() && fragments@[j]@.data.len()
                    == fragment_size,
        decreases total - i,
    {
        assert(0 <= i * fragment_size && i * fragment_size + fragment_size <= total * fragment_size)
            by (nonlinear_arith)
            requires
                0 <= i < total,
                fragment_size > 0,
        ;
        assert(i * fragment_size <= usize::MAX);
        let start = i * fragment_size;
        let mut data: Vec<u8> = Vec::new();
        let mut k: usize = 0;
        while k < fragment_size
            invariant
                k <= fragment_size,
                start + fragment_size <= bytes@.len(),
                bytes@.len() <= usize::MAX,
                data@ == bytes@.subrange(start as int, start + k),
            decreases fragment_size - k,
        {
            data.push(bytes[start + k]);
            assert(data@ =~= bytes@.subrange(start as int, start + k + 1));
            k += 1;
        }
        assert((i + 1) * fragment_size == start + fragment_size) by (nonlinear_arith)
            requires
                start == i * fragment_size,
        ;
        let fragment = Fragment { message_id, total: total as u16, index: i as u16, data };
        proof {
            let expected = fragments_of(payload@, message_id, fragment_size as nat);
            assert(expected.len() == total);
            assert(expected[i as int].data == padded(payload@, fragment_size as nat).subrange(
                i * fragment_size,
                (i + 1) * fragment_size,
            ));
            assert(fragment@.data =~= expected[i as int].data);
            assert(fragment@ == expected[i as int]);
        }
        fragments.push(fragment);
        i += 1;
    }
    assert(views(fragments@) =~= fragments_of(payload@, message_id, fragment_size as nat));
    Ok(fragments)
}

/// The bytes of a fragment: five bytes of message id, two of the count, two of the index, then the data.
pub open spec fn fragment_bytes(fragment: FragmentView) -> Seq<u8> {
    seq![
        ((fragment.message_id / 0x1_0000_0000) % 256) as u8,
        ((fragment.message_id / 0x100_0000) % 256) as u8,
        ((fragment.message_id / 0x1_0000) % 256) as u8,
        ((fragment.message_id / 0x100) % 256) as u8,
        (fragment.message_id % 256) as u8,
        (fragment.total / 256) as u8,
        (fragment.total % 256) as u8,
        (fragment.index / 256) as u8,
        (fragment.index % 256) as u8,
    ] + fragment.data
}

/// The fragment that bytes stand for, if they hold a consistent header.
pub open spec fn parsed_fragment(bytes: Seq<u8>) -> Option<FragmentView> {
    if bytes.len() < FRAGMENT_HEADER_SIZE {
        None
    } else {
        let fragment = FragmentView {
            message_id: (bytes[0] * 0x1_0000_0000 + bytes[1] * 0x100_0000 + bytes[2] * 0x1_0000
                + bytes[3] * 0x100 + bytes[4]) as u64,
            total: (bytes[5] * 256 + bytes[6]) as u16,
            index: (bytes[7] * 256 + bytes[8]) as u16,
            data: bytes.subrange(FRAGMENT_HEADER_SIZE as int, bytes.len() as int),
        };
        if fragment.index < fragment.total {
            Some(fragment)
        } else {
            None
        }
    }
}

impl Fragment {
    /// Writes the fragment to bytes.
    pub fn to_bytes(&self) -> (bytes: Vec<u8>)
        ensures
            bytes@ == fragment_bytes(self@),
    {
        let id = self.message_id;
        let mut bytes: Vec<u8> = Vec::new();
        bytes.push(((id / 0x1_0000_0000) % 256) as u8);
        bytes.push(((id / 0x100_0000) % 256) as u8);
        bytes.push(((id / 0x1_0000) % 256) as u8);
        bytes.push(((id / 0x100) % 256) as u8);
        bytes.push((id % 256) as u8);
        bytes.push((self.total / 256) as u8);
        bytes.push((self.total % 256) as u8);
        bytes.push((self.index / 256) as u8);
        bytes.push((self.index % 256) as u8);
        let ghost header = bytes@;
        let mut i: usize = 0;
        while i < self.data.len()
            invariant
                i <= self.data@.len(),
                bytes@ == header + self.data@.subrange(0, i as int),
            decreases self.data@.len() - i,
        {
            bytes.push(self.data[i]);
            assert(bytes@ =~= header + self.data@.subrange(0, i + 1));
            i += 1;
        }
        assert(bytes@ =~= fragment_bytes(self@));
        bytes
    }

    /// Reads a fragment from bytes; fails on a short or inconsistent header.
    pub fn from_bytes(bytes: &[u8]) -> (res: Result<Fragment, FragmentError>)
        ensures
            res is Ok <==> parsed_fragment(bytes@) is Some,
            res is Ok ==> res->Ok_0@ == parsed_fragment(bytes@).unwrap() && res->Ok_0@.wf(),
            res is Err ==> res->Err_0 == FragmentError::Malformed,
    {
        if bytes.len() < FRAGMENT_HEADER_SIZE {
            return Err(FragmentError::Malformed);
        }
        let message_id: u64 = bytes[0] as u64 * 0x1_0000_0000 + bytes[1] as u64 * 0x100_0000
            + bytes[2] as u64 * 0x1_0000 + bytes[3] as u64 * 0x100 + bytes[4] as u64;
        let total: u16 = bytes[5] as u16 * 256 + bytes[6] as u16;
        let index: u16 = bytes[7] as u16 * 256 + bytes[8] as u16;
        if index >= total {
            return Err(FragmentError::Malformed);
        }
        let mut data: Vec<u8> = Vec::new();
        let mut i: usize = FRAGMENT_HEADER_SIZE;
        while i < bytes.len()
            invariant
                FRAGMENT_HEADER_SIZE <= i <= bytes@.len(),
                data@ == bytes@.subrange(FRAGMENT_HEADER_SIZE as int, i as int),
            decreases bytes@.len() - i,
        {
            data.push(bytes[i]);
            assert(data@ =~= bytes@.subrange(FRAGMENT_HEADER_SIZE as int, i + 1));
            i += 1;
        }
        Ok(Fragment { message_id, total, index, data })
    }
}

/// Five bytes hold a message id, and two a count or an index.
proof fn lemma_header_digits(id: u64, short: u16)
    requires
        id < MESSAGE_ID_LIMIT,
    ensures
        ((id / 0x1_0000_0000) % 256) * 0x1_0000_0000 + ((id / 0x100_0000) % 256) * 0x100_0000 + ((id
            / 0x1_0000) % 256) * 0x1_0000 + ((id / 0x100) % 256) * 0x100 + id % 256 == id,
        (short / 256) * 256 + short % 256 == short,
        short / 256 < 256,
{
    let a = id / 0x100;
    let b = a / 0x100;
    let c = b / 0x100;
    let d = c / 0x100;
    assert(d < 256);
    assert(id == a * 0x100 + id % 256);
    assert(a == b * 0x100 + a % 256);
    assert(b == c * 0x100 + b % 256);
    assert(c == d * 0x100 + c % 256);
    assert(id / 0x1_0000 == b);
    assert(id / 0x100_0000 == c);
    assert(id / 0x1_0000_0000 == d);
}

/// Reading the bytes of a fragment gives the fragment.
pub proof fn lemma_fragment_round_trip(fragment: FragmentView)
    requires
        fragment.wf(),
    ensures
        parsed_fragment(fragment_bytes(fragment)) == Some(fragment),
{
    let bytes = fragment_bytes(fragment);
    let parsed = parsed_fragment(bytes);
    assert(bytes.len() == 9 + fragment.data.len());
    assert(bytes.subrange(FRAGMENT_HEADER_SIZE as int, bytes.len() as int) =~= fragment.data);
    let id = fragment.message_id;
    lemma_header_digits(id, fragment.total);
    lemma_header_digits(id, fragment.index);
    assert(bytes[0] == (id / 0x1_0000_0000) % 256);
    assert(bytes[1] == (id / 0x100_0000) % 256);
    assert(bytes[2] == (id / 0x1_0000) % 256);
    assert(bytes[3] == (id / 0x100) % 256);
    assert(bytes[4] == id % 256);
    assert(bytes[5] == fragment.total / 256);
    assert(bytes[6] == fragment.total % 256);
    assert(bytes[7] == fragment.index / 256);
    assert(bytes[8] == fragment.index % 256);
    assert(bytes[0] * 0x1_0000_0000 + bytes[1] * 0x100_0000 + bytes[2] * 0x1_0000 + bytes[3]
        * 0x100 + bytes[4] == id);
    assert(bytes[5] * 256 + bytes[6] == fragment.total);
    assert(bytes[7] * 256 + bytes[8] == fragment.index);
}

/// The pieces of a message that have arrived, by index.
pub open spec fn collected(fragments: Seq<FragmentView>, arrivals: Seq<int>) -> Map<int, Seq<u8>>
    decreases arrivals.len(),
{
    if arrivals.len() == 0 {
        Map::empty()
    } else {
        let earlier = collected(fragments, arrivals.drop_last());
        let index = arrivals.last();
        if earlier.contains_key(index) {
            earlier
        } else {
            earlier.insert(index, fragments[index].data)
        }
    }
}

/// Every index below `total` has arrived.
pub open spec fn complete(parts: Map<int, Seq<u8>>, total: int) -> bool {
    forall|i: int| 0 <= i < total ==> #[trigger] parts.contains_key(i)
}

/// The first `count` pieces, one after the other.
pub open spec fn joined(parts: Map<int, Seq<u8>>, count: int) -> Seq<u8>
    decreases count,
{
    if count <= 0 {
        Seq::empty()
    } else {
        joined(parts, count - 1) + parts[count - 1]
    }
}

/// Which indices have arrived does not depend on the order of arrival.
pub proof fn lemma_collected_domain(fragments: Seq<FragmentView>, arrivals: Seq<int>)
    ensures
        forall|i: int| #[trigger]
            collected(fragments, arrivals).contains_key(i) <==> arrivals.contains(i),
        forall|i: int| #[trigger]
            collected(fragments, arrivals).contains_key(i) ==> collected(fragments, arrivals)[i]
                == fragments[i].data,
    decreases arrivals.len(),
{
    if arrivals.len() > 0 {
        lemma_collected_domain(fragments, arrivals.drop_last());
        let earlier = collected(fragments, arrivals.drop_last());
        assert forall|i: int| #[trigger]
            collected(fragments, arrivals).contains_key(i) <==> arrivals.contains(i) by {
            if arrivals.contains(i) {
                let p = choose|p: int| 0 <= p < arrivals.len() && arrivals[p] == i;
                if p < arrivals.len() - 1 {
                    assert(arrivals.drop_last()[p] == i);
                }
            }
            if arrivals.drop_last().contains(i) {
                let p = choose|p: int| 0 <= p < arrivals.drop_last().len()
                    && arrivals.drop_last()[p] == i;
                assert(arrivals[p] == i);
            }
            if i == arrivals.last() {
                assert(arrivals[arrivals.len() - 1] == i);
            }
        }
    }
}

/// Joining the pieces of a padded message gives its first bytes back.
pub proof fn lemma_joined_prefix(
    parts: Map<int, Seq<u8>>,
    bytes: Seq<u8>,
    size: nat,
    count: int,
)
    requires
        size > 0,
        0 <= count,
        count * size <= bytes.len(),
        forall|i: int|
            0 <= i < count ==> #[trigger] parts[i] == bytes.subrange(i * size, (i + 1) * size),
    ensures
        joined(parts, count) == bytes.subrange(0, count * size),
    decreases count,
{
    if count == 0 {
        assert(count * size == 0) by (nonlinear_arith)
            requires
                count == 0,
        ;
        assert(joined(parts, count) =~= bytes.subrange(0, 0));
    } else {
        assert((count - 1) * size + size == count * size) by (nonlinear_arith);
        assert((count - 1) * size >= 0) by (nonlinear_arith)
            requires
                count >= 1,
                size > 0,
        ;
        lemma_joined_prefix(parts, bytes, size, count - 1);
        assert(parts[count - 1] == bytes.subrange((count - 1) * size, (count - 1 + 1) * size));
        assert(bytes.subrange(0, (count - 1) * size) + bytes.subrange(
            (count - 1) * size,
            count * size,
        ) =~= bytes.subrange(0, count * size));
    }
}

/// Fragment conservation. Let a message be cut into `n` fragments and let
/// them arrive each once, in any order. Then the set is complete exactly
/// when all `n` have arrived, no sooner, and the complete set gives the
/// message again, byte for byte.
pub proof fn lemma_fragment_conservation(
    payload: Seq<u8>,
    message_id: u64,
    size: nat,
    arrivals: Seq<int>,
)
    requires
        size > 0,
        arrivals.no_duplicates(),
        forall|k: int|
            0 <= k < arrivals.len() ==> 0 <= #[trigger] arrivals[k] < fragments_of(
                payload,
                message_id,
                size,
            ).len(),
    ensures
        ({
            let fragments = fragments_of(payload, message_id, size);
            let parts = collected(fragments, arrivals);
            &&& complete(parts, fragments.len() as int) <==> arrivals.len() == fragments.len()
            &&& complete(parts, fragments.len() as int) ==> unpadded(
                joined(parts, fragments.len() as int),
            ) == Some(payload)
        }),
{
    let fragments = fragments_of(payload, message_id, size);
    let n = fragments.len() as int;
    let parts = collected(fragments, arrivals);
    let bytes = padded(payload, size);
    lemma_collected_domain(fragments, arrivals);
    lemma_padded_len(payload.len(), size);
    assert(bytes.len() == n * size) by (nonlinear_arith)
        requires
            bytes.len() % size == 0,
            n == bytes.len() / size,
            size > 0,
    ;
    let range = vstd::set_lib::set_int_range(0, n);
    vstd::set_lib::lemma_int_range(0, n);
    arrivals.unique_seq_to_set();
    vstd::seq_lib::seq_to_set_is_finite(arrivals);
    assert(arrivals.to_set().subset_of(range)) by {
        assert forall|i: int| arrivals.to_set().contains(i) implies range.contains(i) by {
            let p = choose|p: int| 0 <= p < arrivals.len() && arrivals[p] == i;
            assert(0 <= arrivals[p] < n);
        }
    }
    vstd::set_lib::lemma_len_subset(arrivals.to_set(), range);
    if arrivals.len() == n {
        vstd::set_lib::lemma_subset_equality(arrivals.to_set(), range);
        assert forall|i: int| 0 <= i < n implies #[trigger] parts.contains_key(i) by {
            assert(range.contains(i));
            assert(arrivals.to_set().contains(i));
        }
    }
    if complete(parts, n) {
        assert(range.subset_of(arrivals.to_set())) by {
            assert forall|i: int| range.contains(i) implies arrivals.to_set().contains(i) by {
                assert(parts.contains_key(i));
            }
        }
        vstd::set_lib::lemma_len_subset(range, arrivals.to_set());
        assert forall|i: int| 0 <= i < n implies #[trigger] parts[i] == bytes.subrange(
            i * size,
            (i + 1) * size,
        ) by {
            assert(parts.contains_key(i));
        }
        lemma_joined_prefix(parts, bytes, size, n);
        assert(bytes.subrange(0, n * size) =~= bytes);
        lemma_unpadded_padded(payload, size);
    }
}

} // verus!
