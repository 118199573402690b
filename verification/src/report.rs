use vstd::prelude::*;
use crate::aggregate::{positions, rate_group, weight_group, Aggregator, Counter, OrderClass};
use crate::method::{is_reported, method_name, report_shipping_method, ShippingMethod};
use crate::region::{region_name, Region};
use crate::weight::{weight_range_name, WeightRange};

verus! {

/// How the average of a group comes from its orders.
#[derive(Clone, Copy, Debug, PartialEq, Eq, Structural)]
pub enum Formula {
    /// The mean shipping cost divided by the mean retail value: a ratio of
    /// two means, not the mean of the orders' ratios.
    CostPerDollar,
    /// The mean of the orders' shipping cost per pound.
    CostPerPound,
    /// The mean shipping cost, of the orders of one weight class.
    CostOfWeight(WeightRange),
}

/// An average that is yet to be worked out: a formula, and the places of
/// the orders that it is taken over. Dividing by a sum that is zero is
/// left to give what the division of the amounts gives.
#[derive(Debug)]
pub struct Mean {
    pub formula: Formula,
    pub members: Vec<usize>,
}

/// The average of one group of a table.
#[derive(Debug)]
pub struct Average {
    pub region: Region,
    pub shipping_method: ShippingMethod,
    pub mean: Mean,
}

/// An `Average` with its members as a sequence.
pub struct Group {
    pub region: Region,
    pub shipping_method: ShippingMethod,
    pub formula: Formula,
    pub members: Seq<usize>,
}

/// The averages of the three tables.
#[derive(Debug)]
pub struct Averages {
    pub cost_rate: Vec<Average>,
    pub per_pound_rate: Vec<Average>,
    pub shipping_rate: Vec<Average>,
}

/// One line of the report.
#[derive(Debug)]
pub struct AverageOutput {
    pub region: Region,
    pub label: String,
    pub shipping_method: String,
    pub avg: Mean,
}

impl View for Average {
    type V = Group;

    open spec fn view(&self) -> Group {
        Group {
            region: self.region,
            shipping_method: self.shipping_method,
            formula: self.mean.formula,
            members: self.mean.members@,
        }
    }
}

pub open spec fn groups(averages: Seq<Average>) -> Seq<Group> {
    Seq::new(averages.len(), |i: int| averages[i]@)
}

/// The regions in the order of their names.
pub open spec fn regions_by_name() -> Seq<Region> {
    seq![
        Region::Alaska,
        Region::All,
        Region::GreatPlains,
        Region::Hawaii,
        Region::International,
        Region::MidAtlantic,
        Region::Midwest,
        Region::Mountain,
        Region::Northeast,
        Region::PuertoRico,
        Region::Southeast,
        Region::Southwest,
        Region::WestCoast,
    ]
}

pub open spec fn all_methods() -> Seq<ShippingMethod> {
    seq![
        ShippingMethod::Economy,
        ShippingMethod::Ground,
        ShippingMethod::Express,
        ShippingMethod::Expedited,
        ShippingMethod::Priority,
        ShippingMethod::Special,
        ShippingMethod::Unknown,
    ]
}

pub open spec fn all_weights() -> Seq<WeightRange> {
    seq![
        WeightRange::Under2Lbs,
        WeightRange::Between2And5Lbs,
        WeightRange::Over5Lbs,
        WeightRange::Unknown,
    ]
}

/// The place of a region in the order of the names.
pub open spec fn name_rank(region: Region) -> int {
    match region {
        Region::Alaska => 0,
        Region::All => 1,
        Region::GreatPlains => 2,
        Region::Hawaii => 3,
        Region::International => 4,
        Region::MidAtlantic => 5,
        Region::Midwest => 6,
        Region::Mountain => 7,
        Region::Northeast => 8,
        Region::PuertoRico => 9,
        Region::Southeast => 10,
        Region::Southwest => 11,
        Region::WestCoast => 12,
    }
}

/// The groups by region and method that hold an order, among the first `n`
/// pairs of a region and a method: regions in the order of their names,
/// and under each region the methods.
pub open spec fn rate_groups(seen: Seq<OrderClass>, formula: Formula, n: nat) -> Seq<Group>
    decreases n,
{
    if n == 0 {
        Seq::empty()
    } else {
        let before = rate_groups(seen, formula, (n - 1) as nat);
        let region = regions_by_name()[(n - 1) / 7];
        let method = all_methods()[(n - 1) % 7];
        let members = positions(seen, rate_group(region, method));
        if members.len() > 0 {
            before.push(Group { region, shipping_method: method, formula, members })
        } else {
            before
        }
    }
}

/// The groups by region, weight class and method that hold an order, among
/// the first `n` triples: regions in the order of their names, under each
/// region the weight classes, and under each weight class the methods.
pub open spec fn weight_groups(seen: Seq<OrderClass>, n: nat) -> Seq<Group>
    decreases n,
{
    if n == 0 {
        Seq::empty()
    } else {
        let before = weight_groups(seen, (n - 1) as nat);
        let region = regions_by_name()[(n - 1) / 28];
        let weight = all_weights()[((n - 1) / 7) % 4];
        let method = all_methods()[(n - 1) % 7];
        let members = positions(seen, weight_group(region, weight, method));
        if members.len() > 0 {
            before.push(
                Group {
                    region,
                    shipping_method: method,
                    formula: Formula::CostOfWeight(weight),
                    members,
                },
            )
        } else {
            before
        }
    }
}

/// The label of a line of the report.
pub open spec fn label_of(formula: Formula) -> Seq<char> {
    match formula {
        Formula::CostPerDollar => "Cost per $"@,
        Formula::CostPerPound => "$ per Pound"@,
        Formula::CostOfWeight(weight) => weight_range_name(weight),
    }
}

/// Whether the report shows a group under a region: it shows the groups of
/// that region whose method is reported.
pub open spec fn shown_under(region: Region) -> spec_fn(Group) -> bool {
    |group: Group| group.region == region && is_reported(group.shipping_method)
}

/// The groups that the report shows under one region: those of the cost
/// per dollar, then those of the cost per pound, then those by weight class,
/// each in the order of its table.
pub open spec fn shown_in(averages: Averages, region: Region) -> Seq<Group> {
    groups(averages.cost_rate@).filter(shown_under(region)) + groups(
        averages.per_pound_rate@,
    ).filter(shown_under(region)) + groups(averages.shipping_rate@).filter(shown_under(region))
}

/// The groups that the report shows under the first `n` regions in the
/// order of their names.
pub open spec fn report_of(averages: Averages, n: nat) -> Seq<Group>
    decreases n,
{
    if n == 0 {
        Seq::empty()
    } else {
        report_of(averages, (n - 1) as nat) + shown_in(averages, regions_by_name()[n - 1])
    }
}

/// Whether `a` comes before `b`, or is `b`, in the order of texts:
/// character by character, a text before every text that it begins.
pub open spec fn text_le(a: Seq<char>, b: Seq<char>) -> bool
    decreases a.len(),
{
    if a.len() == 0 {
        true
    } else if b.len() == 0 {
        false
    } else if a[0] != b[0] {
        a[0] < b[0]
    } else {
        text_le(a.drop_first(), b.drop_first())
    }
}

impl AverageOutput {
    /// Whether this line shows a group.
    pub open spec fn shows(&self, group: Group) -> bool {
        &&& self.region == group.region
        &&& self.label@ == label_of(group.formula)
        &&& self.shipping_method@ == method_name(group.shipping_method)
        &&& self.avg.formula == group.formula
        &&& self.avg.members@ == group.members
    }
}

pub fn regions_in_name_order() -> (regions: Vec<Region>)
    ensures
        regions@ == regions_by_name(),
{
    let regions = vec![
        Region::Alaska,
        Region::All,
        Region::GreatPlains,
        Region::Hawaii,
        Region::International,
        Region::MidAtlantic,
        Region::Midwest,
        Region::Mountain,
        Region::Northeast,
        Region::PuertoRico,
        Region::Southeast,
        Region::Southwest,
        Region::WestCoast,
    ];
    assert(regions@ =~= regions_by_name());
    regions
}

fn methods() -> (methods: Vec<ShippingMethod>)
    ensures
        methods@ == all_methods(),
{
    let methods = vec![
        ShippingMethod::Economy,
        ShippingMethod::Ground,
        ShippingMethod::Express,
        ShippingMethod::Expedited,
        ShippingMethod::Priority,
        ShippingMethod::Special,
        ShippingMethod::Unknown,
    ];
    assert(methods@ =~= all_methods());
    methods
}

fn weights() -> (weights: Vec<WeightRange>)
    ensures
        weights@ == all_weights(),
{
    let weights = vec![
        WeightRange::Under2Lbs,
        WeightRange::Between2And5Lbs,
        WeightRange::Over5Lbs,
        WeightRange::Unknown,
    ];
    assert(weights@ =~= all_weights());
    weights
}

fn copy_of(members: &Vec<usize>) -> (copy: Vec<usize>)
    ensures
        copy@ == members@,
{
    let mut copy: Vec<usize> = Vec::new();
    let mut i: usize = 0;
    while i < members.len()
        invariant
            i <= members.len(),
            copy@ == members@.take(i as int),
        decreases members.len() - i,
    {
        copy.push(members[i]);
        assert(copy@ =~= members@.take(i + 1));
        i = i + 1;
    }
    assert(members@.take(i as int) =~= members@);
    copy
}

fn average_of(
    region: Region,
    method: ShippingMethod,
    formula: Formula,
    counter: &Counter,
) -> (average: Average)
    ensures
        average@ == (Group {
            region,
            shipping_method: method,
            formula,
            members: counter.members@,
        }),
{
    Average {
        region,
        shipping_method: method,
        mean: Mean { formula, members: copy_of(&counter.members) },
    }
}

impl Aggregator {
    /// Closes the tables: for each group that holds an order, the average
    /// that is to be taken over it. The tables themselves stay as they are.
    pub fn finalize(&self) -> (averages: Averages)
        requires
            self.wf(),
        ensures
            groups(averages.cost_rate@) == rate_groups(self.seen(), Formula::CostPerDollar, 91),
            groups(averages.per_pound_rate@) == rate_groups(
                self.seen(),
                Formula::CostPerPound,
                91,
            ),
            groups(averages.shipping_rate@) == weight_groups(self.seen(), 364),
    {
        let regions = regions_in_name_order();
        let methods = methods();
        let weights = weights();
        let mut cost_rate: Vec<Average> = Vec::new();
        let mut per_pound_rate: Vec<Average> = Vec::new();
        let mut shipping_rate: Vec<Average> = Vec::new();
        let mut n: usize = 0;
        assert(groups(cost_rate@) =~= rate_groups(self.seen(), Formula::CostPerDollar, 0));
        assert(groups(per_pound_rate@) =~= rate_groups(self.seen(), Formula::CostPerPound, 0));
        while n < 91
            invariant
                n <= 91,
                self.wf(),
                regions@ == regions_by_name(),
                methods@ == all_methods(),
                groups(cost_rate@) == rate_groups(self.seen(), Formula::CostPerDollar, n as nat),
                groups(per_pound_rate@) == rate_groups(
                    self.seen(),
                    Formula::CostPerPound,
                    n as nat,
                ),
            decreases 91 - n,
        {
            let region = regions[n / 7];
            let method = methods[n % 7];
            let ghost cost_before = groups(cost_rate@);
            let ghost pound_before = groups(per_pound_rate@);
            match self.cost_rate_counter(region, method) {
                Some(counter) => {
                    let average = average_of(region, method, Formula::CostPerDollar, counter);
                    cost_rate.push(average);
                    assert(groups(cost_rate@) =~= cost_before.push(average@));
                },
                None => {},
            }
            match self.per_pound_rate_counter(region, method) {
                Some(counter) => {
                    let average = average_of(region, method, Formula::CostPerPound, counter);
                    per_pound_rate.push(average);
                    assert(groups(per_pound_rate@) =~= pound_before.push(average@));
                },
                None => {},
            }
            n = n + 1;
        }
        let mut n: usize = 0;
        assert(groups(shipping_rate@) =~= weight_groups(self.seen(), 0));
        while n < 364
            invariant
                n <= 364,
                self.wf(),
                regions@ == regions_by_name(),
                methods@ == all_methods(),
                weights@ == all_weights(),
                groups(shipping_rate@) == weight_groups(self.seen(), n as nat),
            decreases 364 - n,
        {
            let region = regions[n / 28];
            let weight = weights[(n / 7) % 4];
            let method = methods[n % 7];
            let ghost before = groups(shipping_rate@);
            match self.shipping_rate_counter(region, weight, method) {
                Some(counter) => {
                    let average = average_of(
                        region,
                        method,
                        Formula::CostOfWeight(weight),
                        counter,
                    );
                    shipping_rate.push(average);
                    assert(groups(shipping_rate@) =~= before.push(average@));
                },
                None => {},
            }
            n = n + 1;
        }
        Averages { cost_rate, per_pound_rate, shipping_rate }
    }
}

fn line_of(average: &Average) -> (line: AverageOutput)
    ensures
        line.shows(average@),
{
    let label = match average.mean.formula {
        Formula::CostPerDollar => "Cost per $".to_owned(),
        Formula::CostPerPound => "$ per Pound".to_owned(),
        Formula::CostOfWeight(weight) => weight.name(),
    };
    AverageOutput {
        region: average.region,
        label,
        shipping_method: average.shipping_method.name(),
        avg: Mean { formula: average.mean.formula, members: copy_of(&average.mean.members) },
    }
}

/// Adds to the report the lines of one table that stand under a region.
fn push_shown(list: &Vec<Average>, region: Region, lines: &mut Vec<AverageOutput>)
    ensures
        final(lines)@.len() == old(lines)@.len() + groups(list@).filter(
            shown_under(region),
        ).len(),
        forall|j: int| 0 <= j < old(lines)@.len() ==> final(lines)@[j] == old(lines)@[j],
        forall|j: int|
            0 <= j < groups(list@).filter(shown_under(region)).len() ==> (
            #[trigger] final(lines)@[old(lines)@.len() + j]).shows(
                groups(list@).filter(shown_under(region))[j],
            ),
{
    let ghost all = groups(list@);
    let ghost shown = shown_under(region);
    let ghost start = lines@.len();
    let mut i: usize = 0;
    proof {
        reveal(Seq::filter);
        assert(all.take(0) =~= Seq::<Group>::empty());
    }
    while i < list.len()
        invariant
            i <= list.len(),
            all == groups(list@),
            shown == shown_under(region),
            start == old(lines)@.len(),
            lines@.len() == start + all.take(i as int).filter(shown).len(),
            forall|j: int| 0 <= j < start ==> lines@[j] == old(lines)@[j],
            forall|j: int|
                0 <= j < all.take(i as int).filter(shown).len() ==> (#[trigger] lines@[start
                    + j]).shows(all.take(i as int).filter(shown)[j]),
        decreases list.len() - i,
    {
        let average = &list[i];
        let ghost before = all.take(i as int);
        let ghost now = all.take(i + 1);
        proof {
            reveal(Seq::filter);
            assert(now.drop_last() =~= before);
            assert(now.last() == average@);
        }
        let same_region = average.region == region;
        if same_region && report_shipping_method(&average.shipping_method) {
            let line = line_of(average);
            lines.push(line);
            proof {
                assert(now.filter(shown) == before.filter(shown).push(average@));
                assert forall|j: int| 0 <= j < now.filter(shown).len() implies (
                #[trigger] lines@[start + j]).shows(now.filter(shown)[j]) by {
                    if j < before.filter(shown).len() {
                        assert(now.filter(shown)[j] == before.filter(shown)[j]);
                    }
                }
            }
        } else {
            proof {
                assert(now.filter(shown) == before.filter(shown));
            }
        }
        i = i + 1;
    }
    proof {
        assert(all.take(i as int) =~= all);
    }
}

/// Every group of the report has a reported method and one of the first
/// `n` regions, and the groups stand in the order of their regions' names.
pub proof fn lemma_report_rows(averages: Averages, n: nat)
    requires
        n <= 13,
    ensures
        forall|j: int|
            0 <= j < report_of(averages, n).len() ==> is_reported(
                (#[trigger] report_of(averages, n)[j]).shipping_method,
            ) && name_rank(report_of(averages, n)[j].region) < n,
        forall|i: int, j: int|
            0 <= i < j < report_of(averages, n).len() ==> name_rank(
                report_of(averages, n)[i].region,
            ) <= name_rank(report_of(averages, n)[j].region),
    decreases n,
{
    if n > 0 {
        lemma_report_rows(averages, (n - 1) as nat);
        let region = regions_by_name()[n - 1];
        let shown = shown_under(region);
        let a = groups(averages.cost_rate@).filter(shown);
        let b = groups(averages.per_pound_rate@).filter(shown);
        let c = groups(averages.shipping_rate@).filter(shown);
        let before = report_of(averages, (n - 1) as nat);
        let under = shown_in(averages, region);
        assert(name_rank(region) == n - 1);
        assert forall|j: int| 0 <= j < under.len() implies shown(#[trigger] under[j]) by {
            if j < a.len() {
                groups(averages.cost_rate@).lemma_filter_pred(shown, j);
            } else if j < a.len() + b.len() {
                groups(averages.per_pound_rate@).lemma_filter_pred(shown, j - a.len());
                assert(under[j] == b[j - a.len()]);
            } else {
                groups(averages.shipping_rate@).lemma_filter_pred(shown, j - a.len() - b.len());
                assert(under[j] == c[j - a.len() - b.len()]);
            }
        }
        let now = report_of(averages, n);
        assert forall|j: int| 0 <= j < now.len() implies is_reported(
            (#[trigger] now[j]).shipping_method,
        ) && name_rank(now[j].region) < n && (j >= before.len() ==> name_rank(now[j].region) == n
            - 1) && (j < before.len() ==> name_rank(now[j].region) < n - 1) by {
            if j < before.len() {
                assert(now[j] == before[j]);
            } else {
                assert(now[j] == under[j - before.len()]);
                assert(shown(under[j - before.len()]));
            }
        }
        assert forall|i: int, j: int| 0 <= i < j < now.len() implies name_rank(now[i].region)
            <= name_rank(now[j].region) by {
            if j < before.len() {
                assert(now[i] == before[i]);
                assert(now[j] == before[j]);
            }
        }
    }
}

/// The order of texts is transitive.
pub proof fn lemma_text_le_transitive(a: Seq<char>, b: Seq<char>, c: Seq<char>)
    requires
        text_le(a, b),
        text_le(b, c),
    ensures
        text_le(a, c),
    decreases a.len(),
{
    if a.len() > 0 && b.len() > 0 && c.len() > 0 {
        if a[0] == b[0] && b[0] == c[0] {
            lemma_text_le_transitive(a.drop_first(), b.drop_first(), c.drop_first());
        }
    }
}

/// Every text stands at or before itself.
pub proof fn lemma_text_le_reflexive(a: Seq<char>)
    ensures
        text_le(a, a),
    decreases a.len(),
{
    if a.len() > 0 {
        lemma_text_le_reflexive(a.drop_first());
    }
}

/// The name of each region stands before that of the next in rank.
proof fn lemma_next_name(k: int)
    requires
        0 <= k < 12,
    ensures
        text_le(region_name(regions_by_name()[k]), region_name(regions_by_name()[k + 1])),
{
    reveal_with_fuel(text_le, 8);
    reveal_strlit("Alaska");
    reveal_strlit("All Regions");
    reveal_strlit("Great Plains");
    reveal_strlit("Hawaii");
    reveal_strlit("International");
    reveal_strlit("Mid-Atlantic");
    reveal_strlit("Midwest");
    reveal_strlit("Mountain");
    reveal_strlit("Northeast");
    reveal_strlit("Puerto Rico");
    reveal_strlit("Southeast");
    reveal_strlit("Southwest");
    reveal_strlit("West Coast");
}

/// The rank of a region is the place of its name among the names: a
/// region of lower or equal rank has a name that stands at or before.
pub proof fn lemma_names_rise(a: Region, b: Region)
    requires
        name_rank(a) <= name_rank(b),
    ensures
        text_le(region_name(a), region_name(b)),
    decreases name_rank(b) - name_rank(a),
{
    assert(regions_by_name()[name_rank(a)] == a);
    assert(regions_by_name()[name_rank(b)] == b);
    if name_rank(a) == name_rank(b) {
        lemma_text_le_reflexive(region_name(a));
    } else {
        let next = regions_by_name()[name_rank(a) + 1];
        assert(name_rank(next) == name_rank(a) + 1);
        lemma_next_name(name_rank(a));
        lemma_names_rise(next, b);
        lemma_text_le_transitive(region_name(a), region_name(next), region_name(b));
    }
}

/// Puts the report together: of the averages of the three tables, those
/// with a reported method, each as a line with its label, in the order of
/// the names of their regions. Lines of one region keep the order of the
/// tables.
pub fn assemble(averages: &Averages) -> (lines: Vec<AverageOutput>)
    ensures
        lines@.len() == report_of(*averages, 13).len(),
        forall|j: int|
            0 <= j < lines@.len() ==> (#[trigger] lines@[j]).shows(report_of(*averages, 13)[j]),
        forall|j: int|
            0 <= j < lines@.len() ==> (#[trigger] lines@[j]).shipping_method@ == "Economy"@
                || lines@[j].shipping_method@ == "Ground"@,
        forall|i: int, j: int|
            0 <= i < j < lines@.len() ==> #[trigger] text_le(
                region_name(lines@[i].region),
                region_name(lines@[j].region),
            ),
{
    let regions = regions_in_name_order();
    let mut lines: Vec<AverageOutput> = Vec::new();
    let mut k: usize = 0;
    while k < 13
        invariant
            k <= 13,
            regions@ == regions_by_name(),
            lines@.len() == report_of(*averages, k as nat).len(),
            forall|j: int|
                0 <= j < lines@.len() ==> (#[trigger] lines@[j]).shows(
                    report_of(*averages, k as nat)[j],
                ),
        decreases 13 - k,
    {
        let region = regions[k];
        let ghost before = report_of(*averages, k as nat);
        let ghost a = groups(averages.cost_rate@).filter(shown_under(region));
        let ghost b = groups(averages.per_pound_rate@).filter(shown_under(region));
        let ghost c = groups(averages.shipping_rate@).filter(shown_under(region));
        push_shown(&averages.cost_rate, region, &mut lines);
        push_shown(&averages.per_pound_rate, region, &mut lines);
        push_shown(&averages.shipping_rate, region, &mut lines);
        proof {
            let now = report_of(*averages, (k + 1) as nat);
            assert(now == before + (a + b + c));
            assert forall|j: int| 0 <= j < lines@.len() implies (#[trigger] lines@[j]).shows(
                now[j],
            ) by {
                if j < before.len() {
                    assert(now[j] == before[j]);
                } else if j < before.len() + a.len() {
                    assert(now[j] == a[j - before.len()]);
                    assert(lines@[before.len() + (j - before.len())] == lines@[j]);
                } else if j < before.len() + a.len() + b.len() {
                    assert(now[j] == b[j - before.len() - a.len()]);
                    assert(lines@[before.len() + a.len() + (j - before.len() - a.len())]
                        == lines@[j]);
                } else {
                    assert(now[j] == c[j - before.len() - a.len() - b.len()]);
                    assert(lines@[before.len() + a.len() + b.len() + (j - before.len() - a.len()
                        - b.len())] == lines@[j]);
                }
            }
        }
        k = k + 1;
    }
    proof {
        let rows = report_of(*averages, 13);
        lemma_report_rows(*averages, 13);
        assert forall|j: int| 0 <= j < lines@.len() implies (#[trigger] lines@[j]).shipping_method@
            == "Economy"@ || lines@[j].shipping_method@ == "Ground"@ by {
            assert(lines@[j].shows(rows[j]));
            assert(is_reported(rows[j].shipping_method));
        }
        assert forall|i: int, j: int| 0 <= i < j < lines@.len() implies #[trigger] text_le(
            region_name(lines@[i].region),
            region_name(lines@[j].region),
        ) by {
            assert(lines@[i].shows(rows[i]));
            assert(lines@[j].shows(rows[j]));
            lemma_names_rise(rows[i].region, rows[j].region);
        }
    }
    lines
}

/// Whether a group is the average of one of the three tables.
pub open spec fn is_average_of(averages: Averages, group: Group) -> bool {
    ||| groups(averages.cost_rate@).contains(group)
    ||| groups(averages.per_pound_rate@).contains(group)
    ||| groups(averages.shipping_rate@).contains(group)
}

/// What a filter keeps: the items of the sequence that it holds of.
proof fn lemma_kept(all: Seq<Group>, shown: spec_fn(Group) -> bool, group: Group)
    ensures
        all.filter(shown).contains(group) <==> all.contains(group) && shown(group),
{
    if all.filter(shown).contains(group) {
        all.lemma_filter_contains_rev(shown, group);
        let j = choose|j: int| 0 <= j < all.filter(shown).len() && all.filter(shown)[j] == group;
        all.lemma_filter_pred(shown, j);
    }
    if all.contains(group) && shown(group) {
        let i = choose|i: int| 0 <= i < all.len() && all[i] == group;
        all.lemma_filter_contains(shown, i);
    }
}

/// The report under the first `n` regions holds the averages of those
/// regions that have a reported method, and nothing else.
pub proof fn lemma_report_holds(averages: Averages, n: nat, group: Group)
    requires
        n <= 13,
    ensures
        report_of(averages, n).contains(group) <==> is_average_of(averages, group) && is_reported(
            group.shipping_method,
        ) && name_rank(group.region) < n,
    decreases n,
{
    if n > 0 {
        lemma_report_holds(averages, (n - 1) as nat, group);
        let region = regions_by_name()[n - 1];
        assert(name_rank(region) == n - 1);
        assert(regions_by_name()[name_rank(group.region)] == group.region);
        let shown = shown_under(region);
        let a = groups(averages.cost_rate@).filter(shown);
        let b = groups(averages.per_pound_rate@).filter(shown);
        let c = groups(averages.shipping_rate@).filter(shown);
        let before = report_of(averages, (n - 1) as nat);
        let now = report_of(averages, n);
        lemma_kept(groups(averages.cost_rate@), shown, group);
        lemma_kept(groups(averages.per_pound_rate@), shown, group);
        lemma_kept(groups(averages.shipping_rate@), shown, group);
        assert(now == before + (a + b + c));
        if now.contains(group) {
            let j = choose|j: int| 0 <= j < now.len() && now[j] == group;
            if j < before.len() {
                assert(before[j] == group);
            } else if j < before.len() + a.len() {
                assert(a[j - before.len()] == group);
            } else if j < before.len() + a.len() + b.len() {
                assert(b[j - before.len() - a.len()] == group);
            } else {
                assert(c[j - before.len() - a.len() - b.len()] == group);
            }
        }
        if before.contains(group) {
            let j = choose|j: int| 0 <= j < before.len() && before[j] == group;
            assert(now[j] == group);
        }
        if a.contains(group) {
            let j = choose|j: int| 0 <= j < a.len() && a[j] == group;
            assert(now[before.len() + j] == group);
        }
        if b.contains(group) {
            let j = choose|j: int| 0 <= j < b.len() && b[j] == group;
            assert(now[before.len() + a.len() + j] == group);
        }
        if c.contains(group) {
            let j = choose|j: int| 0 <= j < c.len() && c[j] == group;
            assert(now[before.len() + a.len() + b.len() + j] == group);
        }
    }
}

} // verus!
