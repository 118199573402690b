use vstd::prelude::*;
use std::collections::HashMap;
use crate::method::ShippingMethod;
use crate::order::Order;
use crate::region::Region;
use crate::weight::WeightRange;

verus! {

broadcast use vstd::std_specs::hash::group_hash_axioms;

/// The three classes of an order, by which it is grouped.
#[derive(Clone, Copy, Debug, PartialEq, Eq, Structural)]
pub struct OrderClass {
    pub region: Region,
    pub ship_weight: WeightRange,
    pub shipping_method: ShippingMethod,
}

/// The orders of one group: their count, and the place of each in the run
/// of orders that was taken in, in the order in which they came. The sums of
/// a group are the sums over these orders.
#[derive(Debug)]
pub struct Counter {
    pub members: Vec<usize>,
}

/// Whether orders to a region are summed under `All` too. `All` is the
/// rollup of the continental regions: it leaves out `International`,
/// `Alaska` and `Hawaii`, and it does take in `PuertoRico`.
pub open spec fn in_rollup(region: Region) -> bool {
    region != Region::International && region != Region::Alaska && region != Region::Hawaii
}

/// Whether an order to `actual` counts under the key region `key`: under
/// its own region, and under `All` if it is in the rollup.
pub open spec fn counts_in(actual: Region, key: Region) -> bool {
    actual == key || (key == Region::All && in_rollup(actual))
}

/// The orders that count under a region and a method.
pub open spec fn rate_group(region: Region, method: ShippingMethod) -> spec_fn(OrderClass) -> bool {
    |class: OrderClass| counts_in(class.region, region) && class.shipping_method == method
}

/// The orders that count under a region, a weight class and a method.
pub open spec fn weight_group(
    region: Region,
    weight: WeightRange,
    method: ShippingMethod,
) -> spec_fn(OrderClass) -> bool {
    |class: OrderClass|
        counts_in(class.region, region) && class.ship_weight == weight && class.shipping_method
            == method
}

/// The places in `s`, in rising order, of the items of a group.
pub open spec fn positions(s: Seq<OrderClass>, group: spec_fn(OrderClass) -> bool) -> Seq<usize>
    decreases s.len(),
{
    if s.len() == 0 {
        Seq::empty()
    } else if group(s.last()) {
        positions(s.drop_last(), group).push((s.len() - 1) as usize)
    } else {
        positions(s.drop_last(), group)
    }
}

pub open spec fn region_code(region: Region) -> u64 {
    match region {
        Region::All => 0,
        Region::Northeast => 1,
        Region::MidAtlantic => 2,
        Region::Southeast => 3,
        Region::Midwest => 4,
        Region::GreatPlains => 5,
        Region::Southwest => 6,
        Region::Mountain => 7,
        Region::WestCoast => 8,
        Region::PuertoRico => 9,
        Region::Hawaii => 10,
        Region::Alaska => 11,
        Region::International => 12,
    }
}

pub open spec fn method_code(method: ShippingMethod) -> u64 {
    match method {
        ShippingMethod::Economy => 0,
        ShippingMethod::Ground => 1,
        ShippingMethod::Express => 2,
        ShippingMethod::Expedited => 3,
        ShippingMethod::Priority => 4,
        ShippingMethod::Special => 5,
        ShippingMethod::Unknown => 6,
    }
}

pub open spec fn weight_code(weight: WeightRange) -> u64 {
    match weight {
        WeightRange::Under2Lbs => 0,
        WeightRange::Between2And5Lbs => 1,
        WeightRange::Over5Lbs => 2,
        WeightRange::Unknown => 3,
    }
}

/// The number under which a table holds the group of a region and a method.
pub open spec fn rate_code(region: Region, method: ShippingMethod) -> u64 {
    (region_code(region) * 7 + method_code(method)) as u64
}

/// The number under which a table holds the group of a region, a weight
/// class and a method.
pub open spec fn weight_key_code(region: Region, weight: WeightRange, method: ShippingMethod) -> u64 {
    ((region_code(region) * 4 + weight_code(weight)) * 7 + method_code(method)) as u64
}

/// A table of groups by region and method holds each group that has an
/// order, with the places of its orders, and no empty group.
pub open spec fn rate_table_ok(table: Map<u64, Counter>, seen: Seq<OrderClass>) -> bool {
    forall|region: Region, method: ShippingMethod|
        {
            let members = positions(seen, rate_group(region, method));
            let code = #[trigger] rate_code(region, method);
            if members.len() > 0 {
                table.contains_key(code) && table[code].members@ == members
            } else {
                !table.contains_key(code)
            }
        }
}

/// The same for the table of groups by region, weight class and method.
pub open spec fn weight_table_ok(table: Map<u64, Counter>, seen: Seq<OrderClass>) -> bool {
    forall|region: Region, weight: WeightRange, method: ShippingMethod|
        {
            let members = positions(seen, weight_group(region, weight, method));
            let code = #[trigger] weight_key_code(region, weight, method);
            if members.len() > 0 {
                table.contains_key(code) && table[code].members@ == members
            } else {
                !table.contains_key(code)
            }
        }
}

impl Counter {
    pub fn new() -> (counter: Counter)
        ensures
            counter.members@ == Seq::<usize>::empty(),
    {
        Counter { members: Vec::new() }
    }

    /// Counts one more order: the one at `position`.
    pub fn update(&mut self, position: usize)
        ensures
            final(self).members@ == old(self).members@.push(position),
    {
        self.members.push(position);
    }

    /// How many orders were counted.
    pub fn total_item_count(&self) -> (count: usize)
        ensures
            count == self.members@.len(),
    {
        self.members.len()
    }
}

fn code_of_region(region: Region) -> (code: u64)
    ensures
        code == region_code(region),
        code < 13,
{
    match region {
        Region::All => 0,
        Region::Northeast => 1,
        Region::MidAtlantic => 2,
        Region::Southeast => 3,
        Region::Midwest => 4,
        Region::GreatPlains => 5,
        Region::Southwest => 6,
        Region::Mountain => 7,
        Region::WestCoast => 8,
        Region::PuertoRico => 9,
        Region::Hawaii => 10,
        Region::Alaska => 11,
        Region::International => 12,
    }
}

fn code_of_method(method: ShippingMethod) -> (code: u64)
    ensures
        code == method_code(method),
        code < 7,
{
    match method {
        ShippingMethod::Economy => 0,
        ShippingMethod::Ground => 1,
        ShippingMethod::Express => 2,
        ShippingMethod::Expedited => 3,
        ShippingMethod::Priority => 4,
        ShippingMethod::Special => 5,
        ShippingMethod::Unknown => 6,
    }
}

fn code_of_weight(weight: WeightRange) -> (code: u64)
    ensures
        code == weight_code(weight),
        code < 4,
{
    match weight {
        WeightRange::Under2Lbs => 0,
        WeightRange::Between2And5Lbs => 1,
        WeightRange::Over5Lbs => 2,
        WeightRange::Unknown => 3,
    }
}

fn code_of_rate_key(region: Region, method: ShippingMethod) -> (code: u64)
    ensures
        code == rate_code(region, method),
{
    code_of_region(region) * 7 + code_of_method(method)
}

fn code_of_weight_key(region: Region, weight: WeightRange, method: ShippingMethod) -> (code: u64)
    ensures
        code == weight_key_code(region, weight, method),
{
    (code_of_region(region) * 4 + code_of_weight(weight)) * 7 + code_of_method(method)
}

/// Counts the order at `position` in the group under `code`, which is made
/// if the table does not hold it yet.
fn count_under(table: &mut HashMap<u64, Counter>, code: u64, position: usize)
    ensures
        final(table)@.dom() == old(table)@.dom().insert(code),
        final(table)@[code].members@ == (if old(table)@.contains_key(code) {
            old(table)@[code].members@
        } else {
            Seq::<usize>::empty()
        }).push(position),
        forall|other: u64|
            other != code && old(table)@.contains_key(other) ==> final(table)@[other] == old(
                table,
            )@[other],
{
    let mut counter = match table.remove(&code) {
        Some(counter) => counter,
        None => Counter::new(),
    };
    counter.update(position);
    table.insert(code, counter);
    assert(table@.dom() =~= old(table)@.dom().insert(code));
}

/// The running tables of a cost report: the orders taken in so far, grouped
/// three times over. Two tables group by region and method, one for the
/// cost per dollar and one for the cost per pound; the third groups by
/// region, weight class and method.
pub struct Aggregator {
    seen: Vec<OrderClass>,
    cost_rate: HashMap<u64, Counter>,
    per_pound_rate: HashMap<u64, Counter>,
    shipping_rate: HashMap<u64, Counter>,
}

impl Order {
    pub open spec fn class(&self) -> OrderClass {
        OrderClass {
            region: self.region,
            ship_weight: self.ship_weight,
            shipping_method: self.shipping_method,
        }
    }
}

impl Aggregator {
    /// The classes of the orders taken in so far, in the order in which
    /// they came.
    pub closed spec fn seen(&self) -> Seq<OrderClass> {
        self.seen@
    }

    /// The three tables hold what the orders taken in so far make them hold.
    pub closed spec fn wf(&self) -> bool {
        &&& rate_table_ok(self.cost_rate@, self.seen@)
        &&& rate_table_ok(self.per_pound_rate@, self.seen@)
        &&& weight_table_ok(self.shipping_rate@, self.seen@)
    }

    pub fn new() -> (aggregator: Aggregator)
        ensures
            aggregator.wf(),
            aggregator.seen() == Seq::<OrderClass>::empty(),
    {
        Aggregator {
            seen: Vec::new(),
            cost_rate: HashMap::new(),
            per_pound_rate: HashMap::new(),
            shipping_rate: HashMap::new(),
        }
    }

    /// Takes in one order: it is counted in each table under its own
    /// region, and once more under `All` if its region is in the rollup.
    pub fn accumulate(&mut self, order: &Order)
        requires
            old(self).wf(),
            order.region != Region::All,
        ensures
            final(self).wf(),
            final(self).seen() == old(self).seen().push(order.class()),
    {
        let class = OrderClass {
            region: order.region,
            ship_weight: order.ship_weight,
            shipping_method: order.shipping_method,
        };
        let position = self.seen.len();
        let ghost before = self.seen@;
        self.seen.push(class);
        let ghost after = self.seen@;
        proof {
            assert(after.drop_last() =~= before);
            assert(after.last() == class);
        }
        let own = code_of_rate_key(class.region, class.shipping_method);
        let own_weight = code_of_weight_key(class.region, class.ship_weight, class.shipping_method);
        count_under(&mut self.cost_rate, own, position);
        count_under(&mut self.per_pound_rate, own, position);
        count_under(&mut self.shipping_rate, own_weight, position);
        let rolls_up = match class.region {
            Region::International | Region::Alaska | Region::Hawaii => false,
            _ => true,
        };
        if rolls_up {
            let all = code_of_rate_key(Region::All, class.shipping_method);
            let all_weight = code_of_weight_key(
                Region::All,
                class.ship_weight,
                class.shipping_method,
            );
            count_under(&mut self.per_pound_rate, all, position);
            count_under(&mut self.cost_rate, all, position);
            count_under(&mut self.shipping_rate, all_weight, position);
        }
        proof {
            assert forall|region: Region, method: ShippingMethod|
                {
                    let members = positions(after, rate_group(region, method));
                    let code = #[trigger] rate_code(region, method);
                    (if members.len() > 0 {
                        self.cost_rate@.contains_key(code) && self.cost_rate@[code].members@
                            == members
                    } else {
                        !self.cost_rate@.contains_key(code)
                    }) && (if members.len() > 0 {
                        self.per_pound_rate@.contains_key(code)
                            && self.per_pound_rate@[code].members@ == members
                    } else {
                        !self.per_pound_rate@.contains_key(code)
                    })
                } by {
                assert(rate_code(class.region, class.shipping_method) == own);
            }
            assert forall|region: Region, weight: WeightRange, method: ShippingMethod|
                {
                    let members = positions(after, weight_group(region, weight, method));
                    let code = #[trigger] weight_key_code(region, weight, method);
                    if members.len() > 0 {
                        self.shipping_rate@.contains_key(code)
                            && self.shipping_rate@[code].members@ == members
                    } else {
                        !self.shipping_rate@.contains_key(code)
                    }
                } by {
                assert(weight_key_code(class.region, class.ship_weight, class.shipping_method)
                    == own_weight);
            }
        }
    }
}

impl Aggregator {
    /// The group of a region and a method in the table for the cost per
    /// dollar, if any order counts under them.
    pub fn cost_rate_counter(&self, region: Region, method: ShippingMethod) -> (r: Option<
        &Counter,
    >)
        requires
            self.wf(),
        ensures
            r is Some <==> positions(self.seen(), rate_group(region, method)).len() > 0,
            r matches Some(counter) ==> counter.members@ == positions(
                self.seen(),
                rate_group(region, method),
            ),
    {
        let code = code_of_rate_key(region, method);
        self.cost_rate.get(&code)
    }

    /// The group of a region and a method in the table for the cost per
    /// pound, if any order counts under them.
    pub fn per_pound_rate_counter(&self, region: Region, method: ShippingMethod) -> (r: Option<
        &Counter,
    >)
        requires
            self.wf(),
        ensures
            r is Some <==> positions(self.seen(), rate_group(region, method)).len() > 0,
            r matches Some(counter) ==> counter.members@ == positions(
                self.seen(),
                rate_group(region, method),
            ),
    {
        let code = code_of_rate_key(region, method);
        self.per_pound_rate.get(&code)
    }

    /// The group of a region, a weight class and a method, if any order
    /// counts under them.
    pub fn shipping_rate_counter(
        &self,
        region: Region,
        weight: WeightRange,
        method: ShippingMethod,
    ) -> (r: Option<&Counter>)
        requires
            self.wf(),
        ensures
            r is Some <==> positions(self.seen(), weight_group(region, weight, method)).len() > 0,
            r matches Some(counter) ==> counter.members@ == positions(
                self.seen(),
                weight_group(region, weight, method),
            ),
    {
        let code = code_of_weight_key(region, weight, method);
        self.shipping_rate.get(&code)
    }

    /// How many orders were taken in.
    pub fn order_count(&self) -> (count: usize)
        ensures
            count == self.seen().len(),
    {
        self.seen.len()
    }

    /// Takes in a run of orders, from the first to the last.
    pub fn aggregate(orders: &Vec<Order>) -> (aggregator: Aggregator)
        requires
            forall|i: int| 0 <= i < orders@.len() ==> (#[trigger] orders@[i]).region != Region::All,
        ensures
            aggregator.wf(),
            aggregator.seen() == classes(orders@),
    {
        let mut aggregator = Aggregator::new();
        let mut i: usize = 0;
        while i < orders.len()
            invariant
                i <= orders.len(),
                aggregator.wf(),
                aggregator.seen() == classes(orders@.take(i as int)),
                forall|i: int|
                    0 <= i < orders@.len() ==> (#[trigger] orders@[i]).region != Region::All,
            decreases orders.len() - i,
        {
            aggregator.accumulate(&orders[i]);
            proof {
                assert(classes(orders@.take(i + 1)) =~= classes(orders@.take(i as int)).push(
                    orders@[i as int].class(),
                ));
            }
            i = i + 1;
        }
        proof {
            assert(orders@.take(i as int) =~= orders@);
        }
        aggregator
    }
}

/// The classes of a run of orders.
pub open spec fn classes(orders: Seq<Order>) -> Seq<OrderClass> {
    Seq::new(orders.len(), |i: int| orders[i].class())
}

/// What `positions` holds: the places of the items of the group, each
/// once, in rising order.
pub proof fn lemma_positions(s: Seq<OrderClass>, group: spec_fn(OrderClass) -> bool)
    requires
        s.len() <= usize::MAX,
    ensures
        positions(s, group).len() <= s.len(),
        forall|j: int|
            0 <= j < positions(s, group).len() ==> (#[trigger] positions(s, group)[j]) < s.len()
                && group(s[positions(s, group)[j] as int]),
        forall|j: int, k: int|
            0 <= j < k < positions(s, group).len() ==> positions(s, group)[j] < positions(
                s,
                group,
            )[k],
        forall|i: int|
            0 <= i < s.len() && group(s[i]) ==> exists|j: int|
                0 <= j < positions(s, group).len() && positions(s, group)[j] == i,
    decreases s.len(),
{
    if s.len() > 0 {
        let init = s.drop_last();
        lemma_positions(init, group);
        let now = positions(s, group);
        let before = positions(init, group);
        assert forall|i: int| 0 <= i < s.len() && group(s[i]) implies exists|j: int|
            0 <= j < now.len() && now[j] == i by {
            if i < s.len() - 1 {
                assert(init[i] == s[i]);
                let j = choose|j: int| 0 <= j < before.len() && before[j] == i;
                assert(now[j] == i);
            } else {
                assert(s.last() == s[i]);
                assert(now[now.len() - 1] == i);
            }
        }
        assert forall|j: int| 0 <= j < now.len() implies (#[trigger] now[j]) < s.len() && group(
            s[now[j] as int],
        ) by {
            if j < before.len() {
                assert(now[j] == before[j]);
                assert(init[before[j] as int] == s[before[j] as int]);
            }
        }
    }
}

/// An order to `International`, `Alaska` or `Hawaii` is never counted
/// under `All`: taking one in leaves every group under `All` as it was.
pub proof fn lemma_outside_rollup_leaves_all(
    seen: Seq<OrderClass>,
    class: OrderClass,
    weight: WeightRange,
    method: ShippingMethod,
)
    requires
        class.region == Region::International || class.region == Region::Alaska || class.region
            == Region::Hawaii,
    ensures
        positions(seen.push(class), rate_group(Region::All, method)) == positions(
            seen,
            rate_group(Region::All, method),
        ),
        positions(seen.push(class), weight_group(Region::All, weight, method)) == positions(
            seen,
            weight_group(Region::All, weight, method),
        ),
{
    assert(seen.push(class).drop_last() =~= seen);
}

/// An order to any other region is counted under `All`, in the groups of
/// its method and weight class; so is one to `PuertoRico`.
pub proof fn lemma_inside_rollup_counts_in_all(seen: Seq<OrderClass>, class: OrderClass)
    requires
        class.region != Region::International,
        class.region != Region::Alaska,
        class.region != Region::Hawaii,
    ensures
        positions(seen.push(class), rate_group(Region::All, class.shipping_method)) == positions(
            seen,
            rate_group(Region::All, class.shipping_method),
        ).push(seen.len() as usize),
        positions(
            seen.push(class),
            weight_group(Region::All, class.ship_weight, class.shipping_method),
        ) == positions(
            seen,
            weight_group(Region::All, class.ship_weight, class.shipping_method),
        ).push(seen.len() as usize),
{
    assert(seen.push(class).drop_last() =~= seen);
}

/// Taking the same order in twice doubles every count: of an order taken in
/// once and then once more, each group holds both or neither.
pub proof fn lemma_twice_doubles(class: OrderClass, group: spec_fn(OrderClass) -> bool)
    ensures
        positions(seq![class, class], group).len() == 2 * positions(seq![class], group).len(),
        positions(seq![class], group) == if group(class) {
            seq![0usize]
        } else {
            Seq::<usize>::empty()
        },
        positions(seq![class, class], group) == if group(class) {
            seq![0usize, 1usize]
        } else {
            Seq::<usize>::empty()
        },
{
    let once = seq![class];
    let twice = seq![class, class];
    assert(twice.drop_last() =~= once);
    assert(once.drop_last() =~= Seq::<OrderClass>::empty());
    assert(positions(once.drop_last(), group) =~= Seq::<usize>::empty());
    assert(positions(once, group) =~= if group(class) {
        seq![0usize]
    } else {
        Seq::<usize>::empty()
    });
    assert(positions(twice, group) =~= if group(class) {
        seq![0usize, 1usize]
    } else {
        Seq::<usize>::empty()
    });
}

} // verus!
