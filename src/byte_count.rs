//! Per-datagram byte accounting at each encapsulation layer.
use std::cmp::Ordering;
use vstd::prelude::*;

verus! {

/// Size of a UDP header in bytes.
pub const UDP_HEADER_SIZE: usize = 8;

/// Size of an IPv4 header (without options) in bytes.
#[allow(non_upper_case_globals)]
pub const IPv4_HEADER_SIZE: usize = 20;

/// Ethernet header: two addresses, the EtherType and the frame check sequence.
pub const ETH_HEADER_SIZE: usize = 6 + 6 + 2 + 4;

/// Smallest Ethernet frame that goes on the wire; shorter frames are padded.
pub const MIN_ETH_FRAME_SIZE: usize = 64;

/// Bytes one datagram of payload `p` occupies at the transport layer.
pub open spec fn l4_of(p: int) -> int {
    p + UDP_HEADER_SIZE
}

/// Bytes one datagram of payload `p` occupies at the network layer.
pub open spec fn l3_of(p: int) -> int {
    l4_of(p) + IPv4_HEADER_SIZE
}

/// Bytes one datagram of payload `p` occupies on the link, padding included.
pub open spec fn l2_of(p: int) -> int {
    if l3_of(p) + ETH_HEADER_SIZE >= MIN_ETH_FRAME_SIZE {
        l3_of(p) + ETH_HEADER_SIZE
    } else {
        MIN_ETH_FRAME_SIZE as int
    }
}

/// Sum of a sequence of integers.
pub open spec fn sum_of(s: Seq<int>) -> int
    decreases s.len(),
{
    if s.len() == 0 {
        0
    } else {
        sum_of(s.drop_last()) + s.last()
    }
}

/// A sequence of sizes, read as integers.
pub open spec fn as_ints(v: Seq<usize>) -> Seq<int> {
    v.map_values(|x: usize| x as int)
}

pub open spec fn all_nonneg(s: Seq<int>) -> bool {
    forall|i: int| 0 <= i < s.len() ==> 0 <= #[trigger] s[i]
}

proof fn lemma_sum_nonneg(s: Seq<int>)
    requires
        all_nonneg(s),
    ensures
        0 <= sum_of(s),
    decreases s.len(),
{
    if s.len() > 0 {
        lemma_sum_nonneg(s.drop_last());
    }
}

proof fn lemma_sum_step(s: Seq<int>, i: int)
    requires
        0 <= i < s.len(),
    ensures
        sum_of(s.take(i + 1)) == sum_of(s.take(i)) + s[i],
{
    assert(s.take(i + 1).drop_last() =~= s.take(i));
}

proof fn lemma_sum_prefix_le(s: Seq<int>, i: int)
    requires
        all_nonneg(s),
        0 <= i <= s.len(),
    ensures
        sum_of(s.take(i)) <= sum_of(s),
    decreases s.len(),
{
    if i == s.len() {
        assert(s.take(i) =~= s);
    } else {
        lemma_sum_prefix_le(s.drop_last(), i);
        assert(s.drop_last().take(i) =~= s.take(i));
    }
}

proof fn lemma_elem_le_sum(s: Seq<int>, i: int)
    requires
        all_nonneg(s),
        0 <= i < s.len(),
    ensures
        s[i] <= sum_of(s),
    decreases s.len(),
{
    if i == s.len() - 1 {
        lemma_sum_nonneg(s.drop_last());
    } else {
        lemma_elem_le_sum(s.drop_last(), i);
    }
}

proof fn lemma_sum_mono(s: Seq<int>, t: Seq<int>)
    requires
        s.len() == t.len(),
        forall|i: int| 0 <= i < s.len() ==> #[trigger] s[i] <= t[i],
    ensures
        sum_of(s) <= sum_of(t),
    decreases s.len(),
{
    if s.len() > 0 {
        lemma_sum_mono(s.drop_last(), t.drop_last());
    }
}

proof fn lemma_sum_concat(s: Seq<int>, t: Seq<int>)
    ensures
        sum_of(s + t) == sum_of(s) + sum_of(t),
    decreases t.len(),
{
    if t.len() == 0 {
        assert(s + t =~= s);
    } else {
        lemma_sum_concat(s, t.drop_last());
        assert((s + t).drop_last() =~= s + t.drop_last());
    }
}

/// Sum of the sizes in `v`; the caller guarantees that it fits in a `usize`.
fn sum(v: &Vec<usize>) -> (r: usize)
    requires
        sum_of(as_ints(v@)) <= usize::MAX,
    ensures
        r == sum_of(as_ints(v@)),
{
    let ghost s = as_ints(v@);
    proof {
        assert(all_nonneg(s));
    }
    let mut acc: usize = 0;
    let mut i: usize = 0;
    while i < v.len()
        invariant
            i <= v.len(),
            s == as_ints(v@),
            all_nonneg(s),
            sum_of(s) <= usize::MAX,
            acc == sum_of(s.take(i as int)),
        decreases v.len() - i,
    {
        proof {
            lemma_sum_step(s, i as int);
            lemma_sum_prefix_le(s, i + 1);
        }
        acc = acc + v[i];
        i = i + 1;
    }
    proof {
        assert(s.take(i as int) =~= s);
    }
    acc
}

/// The payload sizes of a series of UDP datagrams, one entry per datagram.
#[derive(Debug, Clone)]
pub struct UdpByteCount {
    pub l7: Vec<usize>,
}

impl View for UdpByteCount {
    type V = Seq<usize>;

    open spec fn view(&self) -> Seq<usize> {
        self.l7@
    }
}

impl UdpByteCount {
    /// Per-datagram payload sizes.
    pub open spec fn l7_seq(&self) -> Seq<int> {
        as_ints(self@)
    }

    /// Per-datagram transport-layer sizes.
    pub open spec fn l4_seq(&self) -> Seq<int> {
        self@.map_values(|p: usize| l4_of(p as int))
    }

    /// Per-datagram network-layer sizes.
    pub open spec fn l3_seq(&self) -> Seq<int> {
        self@.map_values(|p: usize| l3_of(p as int))
    }

    /// Per-datagram frame sizes on the link.
    pub open spec fn l2_seq(&self) -> Seq<int> {
        self@.map_values(|p: usize| l2_of(p as int))
    }

    pub open spec fn l7_total(&self) -> int {
        sum_of(self.l7_seq())
    }

    pub open spec fn l4_total(&self) -> int {
        sum_of(self.l4_seq())
    }

    pub open spec fn l3_total(&self) -> int {
        sum_of(self.l3_seq())
    }

    pub open spec fn l2_total(&self) -> int {
        sum_of(self.l2_seq())
    }

    /// A series of a single datagram with payload size `l7_size`.
    pub fn from_l7(l7_size: usize) -> (r: Self)
        ensures
            r@ == seq![l7_size],
    {
        Self { l7: vec![l7_size] }
    }

    /// The payload size of each datagram.
    pub fn as_l7_iter(&self) -> (r: Vec<usize>)
        ensures
            r@ == self@,
    {
        self.l7.clone()
    }

    /// The transport-layer size of each datagram.
    pub fn as_l4_iter(&self) -> (r: Vec<usize>)
        requires
            self.l4_total() <= usize::MAX,
        ensures
            as_ints(r@) == self.l4_seq(),
    {
        let ghost s = self.l4_seq();
        proof {
            assert(all_nonneg(s));
            assert forall|j: int| 0 <= j < s.len() implies #[trigger] s[j] <= usize::MAX by {
                lemma_elem_le_sum(s, j);
            }
        }
        let mut out: Vec<usize> = Vec::new();
        let mut i: usize = 0;
        while i < self.l7.len()
            invariant
                i <= self.l7.len(),
                s == self.l4_seq(),
                forall|j: int| 0 <= j < s.len() ==> #[trigger] s[j] <= usize::MAX,
                out@.len() == i,
                forall|j: int| 0 <= j < i ==> #[trigger] out@[j] == s[j],
            decreases self.l7.len() - i,
        {
            assert(s[i as int] <= usize::MAX);
            out.push(self.l7[i] + UDP_HEADER_SIZE);
            i = i + 1;
        }
        assert(as_ints(out@) =~= s);
        out
    }

    /// The network-layer size of each datagram.
    pub fn as_l3_iter(&self) -> (r: Vec<usize>)
        requires
            self.l3_total() <= usize::MAX,
        ensures
            as_ints(r@) == self.l3_seq(),
    {
        let ghost s = self.l3_seq();
        proof {
            assert(all_nonneg(s));
            assert forall|j: int| 0 <= j < s.len() implies #[trigger] s[j] <= usize::MAX by {
                lemma_elem_le_sum(s, j);
            }
        }
        let mut out: Vec<usize> = Vec::new();
        let mut i: usize = 0;
        while i < self.l7.len()
            invariant
                i <= self.l7.len(),
                s == self.l3_seq(),
                forall|j: int| 0 <= j < s.len() ==> #[trigger] s[j] <= usize::MAX,
                out@.len() == i,
                forall|j: int| 0 <= j < i ==> #[trigger] out@[j] == s[j],
            decreases self.l7.len() - i,
        {
            assert(s[i as int] <= usize::MAX);
            out.push(self.l7[i] + UDP_HEADER_SIZE + IPv4_HEADER_SIZE);
            i = i + 1;
        }
        assert(as_ints(out@) =~= s);
        out
    }

    /// The frame size of each datagram on the link, padded to the minimum
    /// Ethernet frame.
    pub fn as_l2_iter(&self) -> (r: Vec<usize>)
        requires
            self.l2_total() <= usize::MAX,
        ensures
            as_ints(r@) == self.l2_seq(),
    {
        let ghost s = self.l2_seq();
        proof {
            assert(all_nonneg(s));
            assert forall|j: int| 0 <= j < s.len() implies #[trigger] s[j] <= usize::MAX by {
                lemma_elem_le_sum(s, j);
            }
        }
        let mut out: Vec<usize> = Vec::new();
        let mut i: usize = 0;
        while i < self.l7.len()
            invariant
                i <= self.l7.len(),
                s == self.l2_seq(),
                forall|j: int| 0 <= j < s.len() ==> #[trigger] s[j] <= usize::MAX,
                out@.len() == i,
                forall|j: int| 0 <= j < i ==> #[trigger] out@[j] == s[j],
            decreases self.l7.len() - i,
        {
            assert(s[i as int] <= usize::MAX);
            let l2 = self.l7[i] + UDP_HEADER_SIZE + IPv4_HEADER_SIZE + ETH_HEADER_SIZE;
            if l2 >= MIN_ETH_FRAME_SIZE {
                out.push(l2);
            } else {
                out.push(MIN_ETH_FRAME_SIZE);
            }
            i = i + 1;
        }
        assert(as_ints(out@) =~= s);
        out
    }

    /// Total payload bytes.
    pub fn l7_size(&self) -> (r: usize)
        requires
            self.l7_total() <= usize::MAX,
        ensures
            r == self.l7_total(),
    {
        sum(&self.l7)
    }

    /// Total transport-layer bytes.
    pub fn l4_size(&self) -> (r: usize)
        requires
            self.l4_total() <= usize::MAX,
        ensures
            r == self.l4_total(),
    {
        let v = self.as_l4_iter();
        sum(&v)
    }

    /// Total network-layer bytes.
    pub fn l3_size(&self) -> (r: usize)
        requires
            self.l3_total() <= usize::MAX,
        ensures
            r == self.l3_total(),
    {
        let v = self.as_l3_iter();
        sum(&v)
    }

    /// Total bytes on the link, each frame padded to the Ethernet minimum.
    pub fn l2_size(&self) -> (r: usize)
        requires
            self.l2_total() <= usize::MAX,
        ensures
            r == self.l2_total(),
    {
        let v = self.as_l2_iter();
        sum(&v)
    }

    /// Total bytes on the link, or `None` when the total does not fit in a
    /// `usize`.
    pub fn checked_l2_size(&self) -> (r: Option<usize>)
        ensures
            self.l2_total() <= usize::MAX ==> r == Some(self.l2_total() as usize),
            self.l2_total() > usize::MAX ==> r == None::<usize>,
    {
        let ghost s = self.l2_seq();
        proof {
            assert(all_nonneg(s));
        }
        let mut acc: usize = 0;
        let mut i: usize = 0;
        while i < self.l7.len()
            invariant
                i <= self.l7.len(),
                s == self.l2_seq(),
                all_nonneg(s),
                acc == sum_of(s.take(i as int)),
            decreases self.l7.len() - i,
        {
            proof {
                lemma_sum_step(s, i as int);
                lemma_sum_prefix_le(s, i + 1);
                lemma_elem_le_sum(s, i as int);
            }
            let l3 = match self.l7[i].checked_add(UDP_HEADER_SIZE + IPv4_HEADER_SIZE + ETH_HEADER_SIZE) {
                Some(v) => v,
                None => return None,
            };
            let l2 = if l3 >= MIN_ETH_FRAME_SIZE {
                l3
            } else {
                MIN_ETH_FRAME_SIZE
            };
            acc = match acc.checked_add(l2) {
                Some(v) => v,
                None => return None,
            };
            i = i + 1;
        }
        proof {
            assert(s.take(i as int) =~= s);
        }
        Some(acc)
    }

    /// Appends the datagrams of `rhs` after those of `self`.
    pub fn add(self, rhs: UdpByteCount) -> (r: UdpByteCount)
        ensures
            r@ == self@ + rhs@,
    {
        let mut l7 = self.l7;
        let mut tail = rhs.l7;
        l7.append(&mut tail);
        UdpByteCount { l7 }
    }

    /// Appends the datagrams of `rhs` in place.
    pub fn add_assign(&mut self, rhs: UdpByteCount)
        ensures
            final(self)@ == old(self)@ + rhs@,
    {
        let mut tail = rhs.l7;
        self.l7.append(&mut tail);
    }

    /// Appends one datagram of payload size `l7_size` in place.
    pub fn add_assign_l7(&mut self, l7_size: usize)
        ensures
            final(self)@ == old(self)@.push(l7_size),
    {
        self.l7.push(l7_size);
    }
}

impl Default for UdpByteCount {
    /// The empty series.
    fn default() -> (r: Self)
        ensures
            r@ == Seq::<usize>::empty(),
    {
        UdpByteCount { l7: Vec::new() }
    }
}

impl PartialEq for UdpByteCount {
    fn eq(&self, other: &UdpByteCount) -> (r: bool) {
        let r = self.l7 == other.l7;
        proof {
            if r {
                assert(self.l7@ =~= other.l7@);
            }
        }
        r
    }
}

impl vstd::std_specs::cmp::PartialEqSpecImpl for UdpByteCount {
    open spec fn obeys_eq_spec() -> bool {
        true
    }

    open spec fn eq_spec(&self, other: &UdpByteCount) -> bool {
        self@ == other@
    }
}

impl Eq for UdpByteCount {
}

/// Inbound (request) and outbound (response) traffic of one trial.
#[derive(Debug, Clone)]
pub struct AmpByteCount {
    pub bytes_in: UdpByteCount,
    pub bytes_out: UdpByteCount,
}

/// The order of two integers.
pub open spec fn order_of(a: int, b: int) -> Ordering {
    if a < b {
        Ordering::Less
    } else if a == b {
        Ordering::Equal
    } else {
        Ordering::Greater
    }
}

/// The same comparison seen from the other side.
pub open spec fn reversed(o: Ordering) -> Ordering {
    match o {
        Ordering::Less => Ordering::Greater,
        Ordering::Equal => Ordering::Equal,
        Ordering::Greater => Ordering::Less,
    }
}

fn order_u128(a: u128, b: u128) -> (r: Ordering)
    ensures
        r == order_of(a as int, b as int),
{
    if a < b {
        Ordering::Less
    } else if a == b {
        Ordering::Equal
    } else {
        Ordering::Greater
    }
}

impl AmpByteCount {
    /// Link-layer bytes sent to the target.
    pub open spec fn l2_in(&self) -> int {
        self.bytes_in.l2_total()
    }

    /// Link-layer bytes the target sent back.
    pub open spec fn l2_out(&self) -> int {
        self.bytes_out.l2_total()
    }

    /// Both link-layer totals fit in a `usize`.
    pub open spec fn fits(&self) -> bool {
        self.l2_in() <= usize::MAX && self.l2_out() <= usize::MAX
    }

    /// Ranking of two samples by amplification: cross-multiplied link-layer
    /// ratios when both have inbound traffic, else the outbound totals.
    pub open spec fn cmp_spec(&self, other: &AmpByteCount) -> Ordering {
        if self.l2_in() > 0 && other.l2_in() > 0 {
            order_of(self.l2_out() * other.l2_in(), other.l2_out() * self.l2_in())
        } else {
            order_of(self.l2_out(), other.l2_out())
        }
    }

    /// Compares two samples by amplification, without floating point.
    pub fn cmp(&self, other: &AmpByteCount) -> (r: Ordering)
        requires
            self.fits(),
            other.fits(),
        ensures
            r == self.cmp_spec(other),
    {
        let self_bytes_in = self.bytes_in.l2_size();
        let self_bytes_out = self.bytes_out.l2_size();
        let other_bytes_in = other.bytes_in.l2_size();
        let other_bytes_out = other.bytes_out.l2_size();
        if self_bytes_in > 0 && other_bytes_in > 0 {
            let a = self_bytes_out as u128;
            let b = other_bytes_in as u128;
            let c = other_bytes_out as u128;
            let d = self_bytes_in as u128;
            assert(a * b <= u128::MAX) by (nonlinear_arith)
                requires
                    a <= usize::MAX,
                    b <= usize::MAX,
                    usize::MAX <= u64::MAX,
            ;
            assert(c * d <= u128::MAX) by (nonlinear_arith)
                requires
                    c <= usize::MAX,
                    d <= usize::MAX,
                    usize::MAX <= u64::MAX,
            ;
            order_u128(a * b, c * d)
        } else {
            order_u128(self_bytes_out as u128, other_bytes_out as u128)
        }
    }

    /// The amplification factor as a fraction `(outbound, inbound)` of
    /// link-layer bytes, or `None` when nothing was sent (factor zero).
    pub fn factor_ratio(&self) -> (r: Option<(usize, usize)>)
        requires
            self.fits(),
        ensures
            self.l2_in() == 0 ==> r == None::<(usize, usize)>,
            self.l2_in() > 0 ==> r == Some((self.l2_out() as usize, self.l2_in() as usize)),
    {
        let bytes_in = self.bytes_in.l2_size();
        if bytes_in > 0 {
            Some((self.bytes_out.l2_size(), bytes_in))
        } else {
            None
        }
    }
}

impl PartialEq for AmpByteCount {
    fn eq(&self, other: &AmpByteCount) -> (r: bool) {
        self.bytes_in == other.bytes_in && self.bytes_out == other.bytes_out
    }
}

impl vstd::std_specs::cmp::PartialEqSpecImpl for AmpByteCount {
    open spec fn obeys_eq_spec() -> bool {
        true
    }

    open spec fn eq_spec(&self, other: &AmpByteCount) -> bool {
        self.bytes_in@ == other.bytes_in@ && self.bytes_out@ == other.bytes_out@
    }
}

impl Eq for AmpByteCount {
}

impl Default for AmpByteCount {
    /// No traffic either way.
    fn default() -> (r: Self)
        ensures
            r.bytes_in@ == Seq::<usize>::empty(),
            r.bytes_out@ == Seq::<usize>::empty(),
    {
        AmpByteCount { bytes_in: UdpByteCount::default(), bytes_out: UdpByteCount::default() }
    }
}

/// Each datagram grows from layer to layer, `l7 <= l4 <= l3 <= l2`, and so
/// do the four totals of a series.
pub proof fn lemma_layer_order(c: UdpByteCount)
    ensures
        forall|i: int|
            0 <= i < c@.len() ==> {
                &&& 0 <= #[trigger] c.l7_seq()[i]
                &&& c.l7_seq()[i] <= c.l4_seq()[i]
                &&& c.l4_seq()[i] <= c.l3_seq()[i]
                &&& c.l3_seq()[i] <= c.l2_seq()[i]
            },
        0 <= c.l7_total() <= c.l4_total() <= c.l3_total() <= c.l2_total(),
{
    assert(all_nonneg(c.l7_seq()));
    lemma_sum_nonneg(c.l7_seq());
    lemma_sum_mono(c.l7_seq(), c.l4_seq());
    lemma_sum_mono(c.l4_seq(), c.l3_seq());
    lemma_sum_mono(c.l3_seq(), c.l2_seq());
}

/// The empty series has zero bytes at every layer.
pub proof fn lemma_empty_totals(c: UdpByteCount)
    requires
        c@.len() == 0,
    ensures
        c.l7_total() == 0,
        c.l4_total() == 0,
        c.l3_total() == 0,
        c.l2_total() == 0,
{
}

/// Combining two series adds their totals at every layer.
pub proof fn lemma_concat_totals(a: UdpByteCount, b: UdpByteCount, c: UdpByteCount)
    requires
        c@ == a@ + b@,
    ensures
        c.l7_total() == a.l7_total() + b.l7_total(),
        c.l4_total() == a.l4_total() + b.l4_total(),
        c.l3_total() == a.l3_total() + b.l3_total(),
        c.l2_total() == a.l2_total() + b.l2_total(),
{
    assert(c.l7_seq() =~= a.l7_seq() + b.l7_seq());
    assert(c.l4_seq() =~= a.l4_seq() + b.l4_seq());
    assert(c.l3_seq() =~= a.l3_seq() + b.l3_seq());
    assert(c.l2_seq() =~= a.l2_seq() + b.l2_seq());
    lemma_sum_concat(a.l7_seq(), b.l7_seq());
    lemma_sum_concat(a.l4_seq(), b.l4_seq());
    lemma_sum_concat(a.l3_seq(), b.l3_seq());
    lemma_sum_concat(a.l2_seq(), b.l2_seq());
}

/// Comparing two samples the other way round gives the reversed result.
pub proof fn lemma_cmp_reverse(a: AmpByteCount, b: AmpByteCount)
    ensures
        b.cmp_spec(&a) == reversed(a.cmp_spec(&b)),
{
}

/// Among samples that all have inbound traffic, or that all have none,
/// ranking above is transitive.
pub proof fn lemma_cmp_transitive(a: AmpByteCount, b: AmpByteCount, c: AmpByteCount)
    requires
        (a.l2_in() > 0 && b.l2_in() > 0 && c.l2_in() > 0) || (a.l2_in() == 0 && b.l2_in() == 0
            && c.l2_in() == 0),
        a.cmp_spec(&b) == Ordering::Greater,
        b.cmp_spec(&c) == Ordering::Greater,
    ensures
        a.cmp_spec(&c) == Ordering::Greater,
{
    if a.l2_in() > 0 {
        let (ai, ao, bi, bo, ci, co) = (a.l2_in(), a.l2_out(), b.l2_in(), b.l2_out(), c.l2_in(), c.l2_out());
        assert(ao * ci > co * ai) by (nonlinear_arith)
            requires
                ai > 0,
                bi > 0,
                ci > 0,
                ao * bi > bo * ai,
                bo * ci > co * bi,
        {
            assert(ao * bi * ci > bo * ai * ci);
            assert(bo * ci * ai > co * bi * ai);
            assert(ao * ci * bi > co * ai * bi);
        }
    }
}

/// A sample whose amplification factor, rounded down, is larger than that of
/// another ranks above it: the ranking agrees with the factor.
pub proof fn lemma_cmp_follows_factor(a: AmpByteCount, b: AmpByteCount)
    requires
        a.l2_in() > 0,
        b.l2_in() > 0,
        a.l2_out() / a.l2_in() > b.l2_out() / b.l2_in(),
    ensures
        a.cmp_spec(&b) == Ordering::Greater,
{
    let (ai, ao, bi, bo) = (a.l2_in(), a.l2_out(), b.l2_in(), b.l2_out());
    lemma_layer_order(a.bytes_out);
    lemma_layer_order(b.bytes_out);
    let qa = ao / ai;
    let qb = bo / bi;
    vstd::arithmetic::div_mod::lemma_fundamental_div_mod(ao, ai);
    vstd::arithmetic::div_mod::lemma_fundamental_div_mod(bo, bi);
    vstd::arithmetic::div_mod::lemma_mod_pos_bound(ao, ai);
    vstd::arithmetic::div_mod::lemma_mod_pos_bound(bo, bi);
    assert(ao >= qa * ai) by (nonlinear_arith)
        requires
            ao == ai * qa + ao % ai,
            ao % ai >= 0,
    ;
    assert(bo < (qb + 1) * bi) by (nonlinear_arith)
        requires
            bo == bi * qb + bo % bi,
            bo % bi < bi,
    ;
    assert(ao * bi > bo * ai) by (nonlinear_arith)
        requires
            ai > 0,
            bi > 0,
            qa >= qb + 1,
            ao >= qa * ai,
            bo < (qb + 1) * bi,
    {
        assert(ao * bi >= qa * ai * bi);
        assert(qa * ai * bi >= (qb + 1) * ai * bi);
        assert((qb + 1) * bi * ai > bo * ai);
    }
}

} // verus!
