//! Modem descriptors, the selection strategies, and the order in which a
//! message's candidates are tried.

use crate::error::{EngineError, ErrorKind, ErrorView};
use crate::seq_facts::{lemma_filter_of_all, lemma_filter_of_none};
use crate::text::same_text;
use vstd::arithmetic::div_mod::{
    lemma_fundamental_div_mod, lemma_fundamental_div_mod_converse_mod,
};
use vstd::prelude::*;

verus! {

/// How a serial line's parity bit is set.
#[derive(Clone, Copy, Debug, PartialEq, Eq, Structural)]
pub enum Parity {
    Disabled,
    Odd,
    Even,
}

/// How a serial line paces its traffic.
#[derive(Clone, Copy, Debug, PartialEq, Eq, Structural)]
pub enum FlowControl {
    Disabled,
    Software,
    Hardware,
}

/// The settings a serial line is opened with.
#[derive(Clone, Copy, Debug, PartialEq, Eq, Structural)]
pub struct LineSettings {
    pub baud_rate: u32,
    pub data_bits: u8,
    pub parity: Parity,
    pub stop_bits: u8,
    pub flow_control: FlowControl,
}

/// One attached modem, as the operator configured it.
#[derive(Debug, PartialEq, Eq)]
pub struct ModemConfig {
    /// The label that messages and outcomes name the modem by.
    pub id: String,
    /// The serial device.
    pub port: String,
    pub baud_rate: u32,
    /// Lower values are preferred.
    pub priority: u8,
}

/// A [`ModemConfig`] as a mathematical value.
pub struct ModemView {
    pub id: Seq<char>,
    pub port: Seq<char>,
    pub baud_rate: u32,
    pub priority: u8,
}

impl View for ModemConfig {
    type V = ModemView;

    open spec fn view(&self) -> ModemView {
        ModemView {
            id: self.id@,
            port: self.port@,
            baud_rate: self.baud_rate,
            priority: self.priority,
        }
    }
}

impl Clone for ModemConfig {
    fn clone(&self) -> (copy: Self)
        ensures
            copy == *self,
    {
        ModemConfig {
            id: self.id.clone(),
            port: self.port.clone(),
            baud_rate: self.baud_rate,
            priority: self.priority,
        }
    }
}

impl ModemConfig {
    /// The line settings for this modem: eight data bits, no parity, one
    /// stop bit, no flow control, at the configured speed.
    pub fn line_settings(&self) -> (settings: LineSettings)
        ensures
            settings == (LineSettings {
                baud_rate: self.baud_rate,
                data_bits: 8,
                parity: Parity::Disabled,
                stop_bits: 1,
                flow_control: FlowControl::Disabled,
            }),
    {
        LineSettings {
            baud_rate: self.baud_rate,
            data_bits: 8,
            parity: Parity::Disabled,
            stop_bits: 1,
            flow_control: FlowControl::Disabled,
        }
    }
}

/// How the modems are chosen for a message.
#[derive(Clone, Copy, Debug, PartialEq, Eq, Structural)]
pub enum SmsStrategy {
    /// Every modem, the preferred one first.
    Failover,
    /// The preferred modem and no other.
    SingleCarrier,
    /// Every modem, the starting point moving on with each record.
    RoundRobin,
}

/// The strategy that a tag names. Tags are matched letter for letter.
pub open spec fn strategy_of(tag: Seq<char>) -> SmsStrategy {
    if tag == "single_carrier"@ {
        SmsStrategy::SingleCarrier
    } else if tag == "round_robin"@ {
        SmsStrategy::RoundRobin
    } else {
        SmsStrategy::Failover
    }
}

impl SmsStrategy {
    /// Reads a strategy tag: `single_carrier`, `round_robin`, and `failover`
    /// for anything else.
    pub fn parse(tag: &str) -> (strategy: SmsStrategy)
        ensures
            strategy == strategy_of(tag@),
    {
        if same_text(tag, "single_carrier") {
            SmsStrategy::SingleCarrier
        } else if same_text(tag, "round_robin") {
            SmsStrategy::RoundRobin
        } else {
            SmsStrategy::Failover
        }
    }
}

/// The views of a run of modems.
pub open spec fn modem_views(modems: Seq<ModemConfig>) -> Seq<ModemView> {
    modems.map_values(|m: ModemConfig| m@)
}

/// The modems of a given priority, in the order in which they were given.
pub open spec fn with_priority(modems: Seq<ModemView>, priority: int) -> Seq<ModemView> {
    modems.filter(|m: ModemView| m.priority == priority)
}

/// The modems whose priority is below `bound`, by ascending priority, those
/// of one priority in the order in which they were given.
pub open spec fn sorted_below(modems: Seq<ModemView>, bound: int) -> Seq<ModemView>
    decreases bound,
{
    if bound <= 0 {
        Seq::empty()
    } else {
        sorted_below(modems, bound - 1) + with_priority(modems, bound - 1)
    }
}

/// The modems by ascending priority; modems of equal priority keep their
/// order.
pub open spec fn by_priority(modems: Seq<ModemView>) -> Seq<ModemView> {
    sorted_below(modems, 256)
}

/// `s` turned so that it starts at position `k`.
pub open spec fn rotated<T>(s: Seq<T>, k: int) -> Seq<T> {
    s.skip(k) + s.take(k)
}

/// The order in which the modems are tried for the record `record_id`.
pub open spec fn candidate_order(
    modems: Seq<ModemView>,
    strategy: SmsStrategy,
    record_id: int,
) -> Seq<ModemView> {
    let sorted = by_priority(modems);
    match strategy {
        SmsStrategy::Failover => sorted,
        SmsStrategy::SingleCarrier => if sorted.len() > 1 {
            sorted.take(1)
        } else {
            sorted
        },
        SmsStrategy::RoundRobin => if sorted.len() > 1 {
            rotated(sorted, record_id % (sorted.len() as int))
        } else {
            sorted
        },
    }
}

/// A copy of `modems` by ascending priority, modems of equal priority in the
/// order in which they were given.
pub fn sort_by_priority(modems: &Vec<ModemConfig>) -> (sorted: Vec<ModemConfig>)
    ensures
        modem_views(sorted@) == by_priority(modem_views(modems@)),
{
    let ghost all = modem_views(modems@);
    let mut sorted: Vec<ModemConfig> = Vec::new();
    let mut priority: u16 = 0;
    assert(modem_views(sorted@) =~= sorted_below(all, 0));
    while priority < 256
        invariant
            priority <= 256,
            all == modem_views(modems@),
            modem_views(sorted@) == sorted_below(all, priority as int),
        decreases 256 - priority,
    {
        let mut j: usize = 0;
        assert(all.take(0) =~= Seq::<ModemView>::empty());
        assert(modem_views(sorted@) =~= sorted_below(all, priority as int) + with_priority(
            all.take(0),
            priority as int,
        ));
        while j < modems.len()
            invariant
                j <= modems.len(),
                priority < 256,
                all == modem_views(modems@),
                modem_views(sorted@) == sorted_below(all, priority as int) + with_priority(
                    all.take(j as int),
                    priority as int,
                ),
            decreases modems.len() - j,
        {
            let ghost before = sorted@;
            let ghost pred = |m: ModemView| m.priority == priority as int;
            proof {
                assert(all.take(j + 1) =~= all.take(j as int).push(all[j as int]));
                all.take(j as int).lemma_filter_push(all[j as int], pred);
            }
            if modems[j].priority as u16 == priority {
                sorted.push(modems[j].clone());
                proof {
                    before.lemma_push_map_commute(|m: ModemConfig| m@, modems@[j as int]);
                    assert(modem_views(sorted@) =~= modem_views(before).push(all[j as int]));
                }
            }
            j += 1;
        }
        assert(all.take(modems.len() as int) =~= all);
        priority += 1;
    }
    sorted
}

/// The position at which the round-robin order for `record_id` starts:
/// `record_id` modulo `count`.
pub fn rotation_of(record_id: i64, count: usize) -> (k: usize)
    requires
        count > 0,
    ensures
        k == record_id as int % count as int,
        k < count,
{
    let n: u64 = count as u64;
    if record_id >= 0 {
        let k: u64 = record_id as u64 % n;
        k as usize
    } else {
        let below: u64 = (-(record_id + 1)) as u64;
        let m: u64 = below % n;
        proof {
            let q = below as int / n as int;
            lemma_fundamental_div_mod(below as int, n as int);
            assert(record_id as int == (-q - 1) * n + (n - 1 - m)) by (nonlinear_arith)
                requires
                    below as int == n * q + m,
                    record_id as int == -(below as int) - 1,
            ;
            lemma_fundamental_div_mod_converse_mod(
                record_id as int,
                n as int,
                -q - 1,
                n - 1 - m,
            );
        }
        (n - 1 - m) as usize
    }
}

/// A copy of `modems` turned so that it starts at position `k`.
fn rotate(modems: &Vec<ModemConfig>, k: usize) -> (turned: Vec<ModemConfig>)
    requires
        k <= modems.len(),
    ensures
        turned@ == rotated(modems@, k as int),
{
    let mut turned: Vec<ModemConfig> = Vec::new();
    let mut i: usize = k;
    while i < modems.len()
        invariant
            k <= i <= modems.len(),
            turned@ == modems@.subrange(k as int, i as int),
        decreases modems.len() - i,
    {
        turned.push(modems[i].clone());
        assert(turned@ =~= modems@.subrange(k as int, i + 1));
        i += 1;
    }
    let mut j: usize = 0;
    while j < k
        invariant
            j <= k <= modems.len(),
            turned@ == modems@.skip(k as int) + modems@.take(j as int),
        decreases k - j,
    {
        turned.push(modems[j].clone());
        assert(turned@ =~= modems@.skip(k as int) + modems@.take(j + 1));
        j += 1;
    }
    turned
}

/// The modems of an engine and the strategy that chooses among them. There
/// is always at least one modem.
#[derive(Debug)]
pub struct ModemManager {
    modems: Vec<ModemConfig>,
    strategy: SmsStrategy,
}

/// A [`ModemManager`] as a mathematical value.
pub struct ManagerView {
    pub modems: Seq<ModemView>,
    pub strategy: SmsStrategy,
}

impl View for ModemManager {
    type V = ManagerView;

    closed spec fn view(&self) -> ManagerView {
        ManagerView { modems: modem_views(self.modems@), strategy: self.strategy }
    }
}

impl ModemManager {
    #[verifier::type_invariant]
    spec fn has_a_modem(self) -> bool {
        self.modems.len() > 0
    }

    /// A manager for the given modems. An empty list is refused as an
    /// invalid configuration.
    pub fn new(modems: Vec<ModemConfig>, strategy: SmsStrategy) -> (made: Result<
        ModemManager,
        EngineError,
    >)
        ensures
            modems.len() == 0 <==> made is Err,
            made matches Ok(manager) ==> manager@ == (ManagerView {
                modems: modem_views(modems@),
                strategy,
            }),
            made matches Err(error) ==> error@ == (ErrorView {
                kind: ErrorKind::InvalidConfig,
                message: "No modems defined in config!"@,
            }),
    {
        if modems.len() == 0 {
            Err(EngineError::new(ErrorKind::InvalidConfig, "No modems defined in config!"))
        } else {
            Ok(ModemManager { modems, strategy })
        }
    }

    /// A manager for the given modems with the strategy that `strategy_tag`
    /// names: `single_carrier`, `round_robin`, and failover for any other
    /// tag. An empty list is refused as an invalid configuration.
    pub fn configure(modems: Vec<ModemConfig>, strategy_tag: &str) -> (made: Result<
        ModemManager,
        EngineError,
    >)
        ensures
            modems.len() == 0 <==> made is Err,
            made matches Ok(manager) ==> manager@ == (ManagerView {
                modems: modem_views(modems@),
                strategy: strategy_of(strategy_tag@),
            }),
            made matches Err(error) ==> error@ == (ErrorView {
                kind: ErrorKind::InvalidConfig,
                message: "No modems defined in config!"@,
            }),
    {
        ModemManager::new(modems, SmsStrategy::parse(strategy_tag))
    }

    /// The strategy that the manager applies.
    pub fn strategy(&self) -> (strategy: SmsStrategy)
        ensures
            strategy == self@.strategy,
    {
        self.strategy
    }

    /// The number of modems.
    pub fn modem_count(&self) -> (count: usize)
        ensures
            count == self@.modems.len(),
            count > 0,
    {
        proof {
            use_type_invariant(self);
        }
        self.modems.len()
    }

    /// The modems to try for the record `record_id`, in order: all of them by
    /// priority (failover), the preferred one alone (single carrier), or all
    /// of them by priority, turned by `record_id` modulo their number
    /// (round robin).
    pub fn candidates(&self, record_id: i64) -> (order: Vec<ModemConfig>)
        ensures
            modem_views(order@) == candidate_order(
                self@.modems,
                self@.strategy,
                record_id as int,
            ),
            order.len() > 0,
    {
        proof {
            use_type_invariant(self);
            lemma_by_priority_keeps_all(self@.modems);
        }
        let mut sorted = sort_by_priority(&self.modems);
        assert(sorted.len() == modem_views(sorted@).len());
        match self.strategy {
            SmsStrategy::Failover => sorted,
            SmsStrategy::SingleCarrier => {
                if sorted.len() > 1 {
                    let ghost all = sorted@;
                    sorted.truncate(1);
                    assert(modem_views(sorted@) =~= modem_views(all).take(1));
                }
                sorted
            },
            SmsStrategy::RoundRobin => {
                if sorted.len() > 1 {
                    let k = rotation_of(record_id, sorted.len());
                    let turned = rotate(&sorted, k);
                    assert(modem_views(turned@) =~= rotated(modem_views(sorted@), k as int));
                    turned
                } else {
                    sorted
                }
            },
        }
    }
}

/// The modems whose priority is below `bound`.
pub open spec fn below_priority(modems: Seq<ModemView>, bound: int) -> Seq<ModemView> {
    modems.filter(|m: ModemView| m.priority < bound)
}

proof fn lemma_sorted_below_is_permutation(modems: Seq<ModemView>, bound: int)
    ensures
        sorted_below(modems, bound).to_multiset() == below_priority(modems, bound).to_multiset(),
    decreases bound,
{
    broadcast use vstd::seq_lib::group_to_multiset_ensures;

    if bound <= 0 {
        let low = below_priority(modems, bound);
        if low.len() > 0 {
            modems.lemma_filter_pred(|m: ModemView| m.priority < bound, 0);
        }
        assert(low =~= Seq::<ModemView>::empty());
    } else {
        lemma_sorted_below_is_permutation(modems, bound - 1);
        lemma_priority_split(modems, bound);
        vstd::seq_lib::lemma_multiset_commutative(
            sorted_below(modems, bound - 1),
            with_priority(modems, bound - 1),
        );
    }
}

proof fn lemma_priority_split(modems: Seq<ModemView>, bound: int)
    ensures
        below_priority(modems, bound).to_multiset() == below_priority(
            modems,
            bound - 1,
        ).to_multiset().add(with_priority(modems, bound - 1).to_multiset()),
    decreases modems.len(),
{
    broadcast use vstd::seq_lib::group_to_multiset_ensures;

    let lower = |m: ModemView| m.priority < bound - 1;
    let exact = |m: ModemView| m.priority == bound - 1;
    let upto = |m: ModemView| m.priority < bound;
    if modems.len() == 0 {
        assert(modems.filter(lower) =~= Seq::<ModemView>::empty());
        assert(modems.filter(exact) =~= Seq::<ModemView>::empty());
        assert(modems.filter(upto) =~= Seq::<ModemView>::empty());
        assert(Seq::<ModemView>::empty().to_multiset() =~= vstd::multiset::Multiset::empty());
    } else {
        let front = modems.drop_last();
        let last = modems.last();
        lemma_priority_split(front, bound);
        assert(front.push(last) =~= modems);
        front.lemma_filter_push(last, lower);
        front.lemma_filter_push(last, exact);
        front.lemma_filter_push(last, upto);
        assert(below_priority(modems, bound).to_multiset() =~= below_priority(
            modems,
            bound - 1,
        ).to_multiset().add(with_priority(modems, bound - 1).to_multiset()));
    }
}

/// Sorting by priority keeps every modem, each as often as it was given.
pub proof fn lemma_by_priority_keeps_all(modems: Seq<ModemView>)
    ensures
        by_priority(modems).to_multiset() == modems.to_multiset(),
        by_priority(modems).len() == modems.len(),
{
    broadcast use vstd::seq_lib::group_to_multiset_ensures;

    lemma_sorted_below_is_permutation(modems, 256);
    let all = below_priority(modems, 256);
    assert(all =~= modems) by {
        lemma_filter_of_all(modems, |m: ModemView| m.priority < 256);
    }
    assert(by_priority(modems).to_multiset().len() == by_priority(modems).len());
    assert(modems.to_multiset().len() == modems.len());
}


proof fn lemma_sorted_below_ascends(modems: Seq<ModemView>, bound: int)
    ensures
        forall|i: int|
            0 <= i < sorted_below(modems, bound).len() ==> (#[trigger] sorted_below(
                modems,
                bound,
            )[i]).priority < bound,
        forall|i: int, j: int|
            0 <= i <= j < sorted_below(modems, bound).len() ==> (#[trigger] sorted_below(
                modems,
                bound,
            )[i]).priority <= (#[trigger] sorted_below(modems, bound)[j]).priority,
    decreases bound,
{
    if bound > 0 {
        let head = sorted_below(modems, bound - 1);
        let tail = with_priority(modems, bound - 1);
        lemma_sorted_below_ascends(modems, bound - 1);
        assert forall|k: int| 0 <= k < tail.len() implies (#[trigger] tail[k]).priority == bound
            - 1 by {
            modems.lemma_filter_pred(|m: ModemView| m.priority == bound - 1, k);
        }
        let all = sorted_below(modems, bound);
        assert forall|i: int| 0 <= i < all.len() implies (#[trigger] all[i]).priority < bound by {
            if i < head.len() {
                assert(all[i] == head[i]);
            } else {
                assert(all[i] == tail[i - head.len()]);
            }
        }
        assert forall|i: int, j: int| 0 <= i <= j < all.len() implies (#[trigger] all[i]).priority
            <= (#[trigger] all[j]).priority by {
            if j < head.len() {
                assert(all[i] == head[i]);
                assert(all[j] == head[j]);
            } else if i < head.len() {
                assert(all[i] == head[i]);
                assert(all[j] == tail[j - head.len()]);
            } else {
                assert(all[i] == tail[i - head.len()]);
                assert(all[j] == tail[j - head.len()]);
            }
        }
    }
}

/// Sorted by priority, no modem comes before one that is preferred to it.
pub proof fn lemma_by_priority_ascends(modems: Seq<ModemView>, i: int, j: int)
    requires
        0 <= i <= j < by_priority(modems).len(),
    ensures
        by_priority(modems)[i].priority <= by_priority(modems)[j].priority,
{
    lemma_sorted_below_ascends(modems, 256);
}

proof fn lemma_sorted_below_keeps_order(modems: Seq<ModemView>, bound: int, priority: int)
    ensures
        with_priority(sorted_below(modems, bound), priority) == if 0 <= priority < bound {
            with_priority(modems, priority)
        } else {
            Seq::empty()
        },
    decreases bound,
{
    let wanted = |m: ModemView| m.priority == priority;
    if bound <= 0 {
        assert(sorted_below(modems, bound).filter(wanted) =~= Seq::<ModemView>::empty()) by {
            lemma_filter_of_none(sorted_below(modems, bound), wanted);
        }
    } else {
        let head = sorted_below(modems, bound - 1);
        let tail = with_priority(modems, bound - 1);
        lemma_sorted_below_keeps_order(modems, bound - 1, priority);
        Seq::filter_distributes_over_add(head, tail, wanted);
        assert forall|k: int| 0 <= k < tail.len() implies (#[trigger] tail[k]).priority == bound
            - 1 by {
            modems.lemma_filter_pred(|m: ModemView| m.priority == bound - 1, k);
        }
        if priority == bound - 1 {
            lemma_filter_of_all(tail, wanted);
            assert(Seq::<ModemView>::empty() + tail =~= tail);
        } else {
            lemma_filter_of_none(tail, wanted);
            assert(head.filter(wanted) + Seq::<ModemView>::empty() =~= head.filter(wanted));
        }
    }
}

/// Sorting by priority keeps modems of one priority in the order in which
/// they were given.
pub proof fn lemma_by_priority_is_stable(modems: Seq<ModemView>, priority: u8)
    ensures
        with_priority(by_priority(modems), priority as int) == with_priority(
            modems,
            priority as int,
        ),
{
    lemma_sorted_below_keeps_order(modems, 256, priority as int);
}

/// Turning a list keeps every element, each as often as it was there: round
/// robin tries every modem.
pub proof fn lemma_rotation_keeps_all<T>(s: Seq<T>, k: int)
    requires
        0 <= k <= s.len(),
    ensures
        rotated(s, k).to_multiset() == s.to_multiset(),
        rotated(s, k).len() == s.len(),
{
    assert(s.take(k) + s.skip(k) =~= s);
    vstd::seq_lib::lemma_multiset_commutative(s.take(k), s.skip(k));
    vstd::seq_lib::lemma_multiset_commutative(s.skip(k), s.take(k));
    assert(s.take(k).to_multiset().add(s.skip(k).to_multiset()) =~= s.skip(k).to_multiset().add(
        s.take(k).to_multiset(),
    ));
}

/// Round robin moves on by one modem from one record to the next: where
/// the order for a record starts at position `k`, the order for the record
/// after it starts at the position after `k`, or at the first where `k` is
/// the last.
pub proof fn lemma_adjacent_records_start_at_adjacent_modems(record_id: int, count: int)
    requires
        count > 0,
    ensures
        (record_id + 1) % count == if record_id % count + 1 < count {
            record_id % count + 1
        } else {
            0
        },
{
    let k = record_id % count;
    let q = record_id / count;
    lemma_fundamental_div_mod(record_id, count);
    if k + 1 < count {
        assert(record_id + 1 == q * count + (k + 1)) by (nonlinear_arith)
            requires
                record_id == count * q + k,
        ;
        lemma_fundamental_div_mod_converse_mod(record_id + 1, count, q, k + 1);
    } else {
        assert(record_id + 1 == (q + 1) * count + 0) by (nonlinear_arith)
            requires
                record_id == count * q + k,
                k + 1 == count,
        ;
        lemma_fundamental_div_mod_converse_mod(record_id + 1, count, q + 1, 0);
    }
}

} // verus!
