//! The instance inventory report, which also details coverage.
use vstd::prelude::*;
use crate::cache::spec_text;
use crate::matrix::{
    aggregate, aggregates_view, cell, row_view, rows_view, strings_view, Matrix, MatrixFooter,
    MatrixHeader, MatrixOutput,
};
use crate::model::{Instance, InstanceTypeSpec, Tag};
use crate::text::{decimal_text, u128_text, u64_text};

verus! {

/// The value of the first tag named `key`.
pub open spec fn tag_value(tags: Seq<Tag>, key: Seq<char>) -> Option<Seq<char>>
    decreases tags.len(),
{
    if tags.len() == 0 {
        None
    } else if tags[0].key@ == key {
        Some(tags[0].value@)
    } else {
        tag_value(tags.drop_first(), key)
    }
}

/// The display name of an instance: its `Name` tag; else its cluster-name
/// tag, marked as a cluster node; else `Untitled`.
pub open spec fn instance_name(i: Instance) -> Seq<char> {
    match tag_value(i.tags@, "Name"@) {
        Some(n) => n,
        None => match tag_value(i.tags@, "aws:eks:cluster-name"@) {
            Some(c) => "[EKS] "@ + c,
            None => "Untitled"@,
        },
    }
}

/// An instance with the details that the wide inventory shows.
#[derive(Clone, Debug, PartialEq, Eq)]
pub struct EC2Instance {
    pub instance: Instance,
    /// Whether a remote session can be opened on it, when that was asked.
    pub ssm: Option<bool>,
    pub az: Option<String>,
    pub instance_type: Option<String>,
    pub spec: Option<InstanceTypeSpec>,
}

impl EC2Instance {
    /// The value of the first tag named `key`, if any.
    pub fn find_tag_value(&self, key: &str) -> (r: Option<String>)
        ensures
            r is Some <==> tag_value(self.instance.tags@, key@) is Some,
            r matches Some(v) ==> v@ == tag_value(self.instance.tags@, key@).unwrap(),
    {
        let tags = &self.instance.tags;
        let wanted = String::from_str(key);
        let mut i: usize = 0;
        assert(tags@.skip(0) =~= tags@);
        while i < tags.len()
            invariant
                i <= tags@.len(),
                tags@ == self.instance.tags@,
                wanted@ == key@,
                tag_value(tags@, key@) == tag_value(tags@.skip(i as int), key@),
            decreases tags@.len() - i,
        {
            assert(tags@.skip(i as int).drop_first() =~= tags@.skip(i + 1));
            assert(tags@.skip(i as int)[0] == tags@[i as int]);
            if tags[i].key == wanted {
                assert(tags@[i as int].key@ == key@);
                assert(tag_value(tags@.skip(i as int), key@) == Some(tags@[i as int].value@));
                let v = tags[i].value.clone();
                assert(v@ == tags@[i as int].value@);
                return Some(v);
            }
            i = i + 1;
        }
        None
    }

    /// The display name of the instance.
    pub fn get_name(&self) -> (r: String)
        ensures
            r@ == instance_name(self.instance),
    {
        proof {
            reveal_strlit("[EKS] ");
            reveal_strlit("Untitled");
        }
        match self.find_tag_value("Name") {
            Some(name) => name,
            None => match self.find_tag_value("aws:eks:cluster-name") {
                Some(cluster) => String::from_str("[EKS] ").concat(cluster.as_str()),
                None => String::from_str("Untitled"),
            },
        }
    }
}

/// The instances whose lifecycle state is `running`, in order.
pub fn running_instances(instances: Vec<Instance>) -> (r: Vec<Instance>)
    ensures
        r@ == instances@.filter(is_running()),
{
    let ghost all = instances@;
    let mut r: Vec<Instance> = Vec::new();
    let running = String::from_str("running");
    for inst in it: instances
        invariant
            it.seq() == all,
            running@ == "running"@,
            r@ == all.take(it.index() as int).filter(is_running()),
    {
        let ghost k = it.index();
        assert(all.take(k + 1).drop_last() =~= all.take(k as int));
        assert(all.take(k + 1).last() == all[k as int]);
        proof {
            reveal(Seq::filter);
        }
        if inst.state == running {
            r.push(inst);
        }
    }
    assert(all.take(all.len() as int) =~= all);
    r
}

/// Whether an instance is running.
pub open spec fn is_running() -> spec_fn(Instance) -> bool {
    |i: Instance| i.state@ == "running"@
}

/// Whether an instance with id `id` is shown under `filter`: all are when
/// there is no filter.
pub open spec fn passes(filter: Option<Vec<String>>, id: Seq<char>) -> bool {
    match filter {
        None => true,
        Some(ids) => exists|k: int| 0 <= k < ids@.len() && #[trigger] ids@[k]@ == id,
    }
}

/// Whether the instance with id `id` is shown under `filter`.
pub fn passes_filter(filter: &Option<Vec<String>>, id: &String) -> (r: bool)
    ensures
        r == passes(*filter, id@),
{
    match filter {
        None => true,
        Some(ids) => {
            let mut k: usize = 0;
            while k < ids.len()
                invariant
                    k <= ids@.len(),
                    *filter == Some(*ids),
                    forall|j: int| 0 <= j < k ==> #[trigger] ids@[j]@ != id@,
                decreases ids@.len() - k,
            {
                if ids[k] == *id {
                    assert(ids@[k as int]@ == id@);
                    assert(filter.unwrap()@[k as int]@ == id@);
                    assert(passes(*filter, id@));
                    return true;
                }
                k = k + 1;
            }
            false
        },
    }
}

/// The column headings of the inventory; the wide form adds four.
pub open spec fn inventory_headings(extended: bool) -> Seq<Option<Seq<char>>> {
    let base = seq![
        Some("Instance ID"@),
        Some("Name"@),
        Some("Status"@),
        Some("Public IP"@),
        Some("Private IP"@),
        Some("Spot"@),
    ];
    if extended {
        base + seq![Some("SSM"@), Some("AZ"@), Some("Type"@), Some("Spec"@)]
    } else {
        base
    }
}

pub open spec fn or_text(s: Option<String>, absent: Seq<char>) -> Seq<char> {
    match s {
        Some(t) => t@,
        None => absent,
    }
}

/// The cells that show one instance.
pub open spec fn inventory_cells(e: EC2Instance, extended: bool) -> Seq<Option<Seq<char>>> {
    let base = seq![
        Some(e.instance.instance_id@),
        Some(instance_name(e.instance)),
        Some(e.instance.state@),
        Some(or_text(e.instance.public_ip_address, "None"@)),
        Some(or_text(e.instance.private_ip_address, "None"@)),
        Some(if e.instance.spot { "Yes"@ } else { "No"@ }),
    ];
    if extended {
        base + seq![
            Some(
                match e.ssm {
                    None => "-"@,
                    Some(true) => "Yes"@,
                    Some(false) => "No"@,
                },
            ),
            Some(or_text(e.az, "Unknown"@)),
            Some(or_text(e.instance_type, "Unknown"@)),
            Some(
                match e.spec {
                    Some(s) => spec_text(s),
                    None => "Unknown"@,
                },
            ),
        ]
    } else {
        base
    }
}

/// Virtual CPUs over the instances whose hardware is known.
pub open spec fn fleet_cpus(v: Seq<EC2Instance>) -> nat
    decreases v.len(),
{
    if v.len() == 0 {
        0
    } else {
        fleet_cpus(v.drop_last()) + match v.last().spec {
            Some(s) => s.vcpus as nat,
            None => 0,
        }
    }
}

/// GiB of memory over the instances whose hardware is known.
pub open spec fn fleet_memory(v: Seq<EC2Instance>) -> nat
    decreases v.len(),
{
    if v.len() == 0 {
        0
    } else {
        fleet_memory(v.drop_last()) + match v.last().spec {
            Some(s) => s.memory_gib as nat,
            None => 0,
        }
    }
}

fn or_string(s: &Option<String>, absent: &str) -> (r: String)
    ensures
        r@ == or_text(*s, absent@),
{
    match s {
        Some(t) => t.clone(),
        None => String::from_str(absent),
    }
}

fn yes_no(b: bool) -> (r: String)
    ensures
        r@ == (if b { "Yes"@ } else { "No"@ }),
{
    if b {
        String::from_str("Yes")
    } else {
        String::from_str("No")
    }
}

/// The inventory of instances, as the instance listing command holds it.
pub struct EC2Command {
    pub instances: Vec<EC2Instance>,
    /// The ids of the only instances to show, when set.
    pub instance_filter: Option<Vec<String>>,
    /// Whether the wide form, with eligibility and hardware, is shown.
    pub extended_output: bool,
}

impl EC2Command {
    pub fn new(extended_output: bool) -> (r: EC2Command)
        ensures
            r.instances@.len() == 0,
            r.instance_filter is None,
            r.extended_output == extended_output,
    {
        EC2Command { instances: Vec::new(), instance_filter: None, extended_output }
    }

    fn headings(&self) -> (r: Vec<Option<String>>)
        ensures
            row_view(r@) == inventory_headings(self.extended_output),
    {
        let mut row: Vec<Option<String>> = Vec::new();
        row.push(cell("Instance ID"));
        row.push(cell("Name"));
        row.push(cell("Status"));
        row.push(cell("Public IP"));
        row.push(cell("Private IP"));
        row.push(cell("Spot"));
        if self.extended_output {
            row.push(cell("SSM"));
            row.push(cell("AZ"));
            row.push(cell("Type"));
            row.push(cell("Spec"));
        }
        assert(row_view(row@) =~= inventory_headings(self.extended_output));
        row
    }

    /// The cells of one instance.
    pub fn inventory_row(&self, e: &EC2Instance) -> (r: Vec<Option<String>>)
        ensures
            row_view(r@) == inventory_cells(*e, self.extended_output),
    {
        let mut row: Vec<Option<String>> = Vec::new();
        row.push(Some(e.instance.instance_id.clone()));
        row.push(Some(e.get_name()));
        row.push(Some(e.instance.state.clone()));
        row.push(Some(or_string(&e.instance.public_ip_address, "None")));
        row.push(Some(or_string(&e.instance.private_ip_address, "None")));
        row.push(Some(yes_no(e.instance.spot)));
        if self.extended_output {
            let ssm = match e.ssm {
                None => String::from_str("-"),
                Some(b) => yes_no(b),
            };
            row.push(Some(ssm));
            row.push(Some(or_string(&e.az, "Unknown")));
            row.push(Some(or_string(&e.instance_type, "Unknown")));
            let spec = match e.spec {
                Some(s) => {
                    let mut t = u64_text(s.vcpus as u64);
                    t.append("/");
                    let m = u64_text(s.memory_gib);
                    t.append(m.as_str());
                    proof {
                        reveal_strlit("/");
                    }
                    t
                },
                None => String::from_str("Unknown"),
            };
            row.push(Some(spec));
        }
        let ghost want = inventory_cells(*e, self.extended_output);
        let ghost got = row_view(row@);
        assert(got.len() == want.len());
        assert(got[0] == want[0]);
        assert(got[1] == want[1]);
        assert(got[2] == want[2]);
        assert(got[3] == want[3]);
        assert(got[4] == want[4]);
        assert(got[5] == want[5]);
        if self.extended_output {
            assert(got[6] == want[6]);
            assert(got[7] == want[7]);
            assert(got[8] == want[8]);
            assert(got[9] == want[9]);
        }
        assert(row_view(row@) =~= inventory_cells(*e, self.extended_output));
        row
    }

    /// The inventory matrix: a heading row, one row per instance, and the
    /// fleet's CPU and memory totals over the instances whose hardware is
    /// known (which only the wide form looks up).
    pub fn generate_matrix(&self) -> (r: Matrix)
        ensures
            r.header matches Some(h) && strings_view(h@) == seq!["Instance Inventory"@],
            r.rows matches Some(rows) && rows_view(rows@) == seq![
                inventory_headings(self.extended_output),
            ] + self.instances@.map_values(
                |e: EC2Instance| inventory_cells(e, self.extended_output),
            ),
            r.aggregate_rows matches Some(a) && aggregates_view(a@) == seq![
                (
                    "Fleet CPU Total"@,
                    decimal_text(
                        if self.extended_output {
                            fleet_cpus(self.instances@)
                        } else {
                            0
                        },
                    ),
                ),
                (
                    "Fleet Memory Total"@,
                    decimal_text(
                        if self.extended_output {
                            fleet_memory(self.instances@)
                        } else {
                            0
                        },
                    ),
                ),
            ],
            r.notes is None,
            r.first_rows_header,
    {
        let ghost cells = self.instances@.map_values(
            |e: EC2Instance| inventory_cells(e, self.extended_output),
        );
        let mut rows: Vec<Vec<Option<String>>> = Vec::new();
        rows.push(self.headings());
        let mut cpu_tot: u128 = 0;
        let mut mem_tot: u128 = 0;
        let mut i: usize = 0;
        while i < self.instances.len()
            invariant
                i <= self.instances@.len(),
                cells == self.instances@.map_values(
                    |e: EC2Instance| inventory_cells(e, self.extended_output),
                ),
                rows_view(rows@) == seq![inventory_headings(self.extended_output)] + cells.take(
                    i as int,
                ),
                cpu_tot == (if self.extended_output {
                    fleet_cpus(self.instances@.take(i as int))
                } else {
                    0
                }),
                mem_tot == (if self.extended_output {
                    fleet_memory(self.instances@.take(i as int))
                } else {
                    0
                }),
                cpu_tot <= i * 0xffff_ffff,
                mem_tot <= i * 0xffff_ffff_ffff_ffff,
            decreases self.instances@.len() - i,
        {
            let e = &self.instances[i];
            let ghost before = rows@;
            rows.push(self.inventory_row(e));
            assert(rows_view(rows@) =~= rows_view(before).push(
                inventory_cells(*e, self.extended_output),
            ));
            assert(cells.take(i + 1) =~= cells.take(i as int).push(cells[i as int]));
            assert(self.instances@.take(i + 1).drop_last() =~= self.instances@.take(i as int));
            assert(self.instances@.take(i + 1).last() == self.instances@[i as int]);
            if self.extended_output {
                if let Some(s) = e.spec {
                    cpu_tot = cpu_tot + s.vcpus as u128;
                    mem_tot = mem_tot + s.memory_gib as u128;
                }
            }
            i = i + 1;
        }
        assert(cells.take(cells.len() as int) =~= cells);
        assert(self.instances@.take(self.instances@.len() as int) =~= self.instances@);
        let mut header: Vec<String> = Vec::new();
        header.push(String::from_str("Instance Inventory"));
        assert(strings_view(header@) =~= seq!["Instance Inventory"@]);
        let mut aggregates = Vec::new();
        aggregates.push(aggregate("Fleet CPU Total", u128_text(cpu_tot)));
        aggregates.push(aggregate("Fleet Memory Total", u128_text(mem_tot)));
        assert(aggregates_view(aggregates@) =~= seq![
            (
                "Fleet CPU Total"@,
                decimal_text(
                    if self.extended_output {
                        fleet_cpus(self.instances@)
                    } else {
                        0
                    },
                ),
            ),
            (
                "Fleet Memory Total"@,
                decimal_text(
                    if self.extended_output {
                        fleet_memory(self.instances@)
                    } else {
                        0
                    },
                ),
            ),
        ]);
        Matrix {
            header: Some(header),
            rows: Some(rows),
            aggregate_rows: Some(aggregates),
            notes: None,
            first_rows_header: true,
        }
    }

    /// The report of the inventory command: its matrix under a report header.
    pub fn get_matrix_output(&self) -> (r: Option<MatrixOutput>)
        ensures
            r matches Some(out) && out.matrices@.len() == 1 && (out.matrix_header matches Some(h)
                && (h.title matches Some(t) && t@ == "EC2"@)),
    {
        let mut matrices: Vec<Matrix> = Vec::new();
        matrices.push(self.generate_matrix());
        Some(
            MatrixOutput {
                matrix_header: Some(
                    MatrixHeader { title: Some(String::from_str("EC2")), output_program_header: true },
                ),
                matrix_footer: Some(MatrixFooter { footer: None, output_program_footer: true }),
                matrices,
            },
        )
    }
}

/// Strict lexicographic order of texts by code point, which is the order
/// of `String` comparison.
pub open spec fn text_less(a: Seq<char>, b: Seq<char>) -> bool
    decreases a.len(),
{
    if b.len() == 0 {
        false
    } else if a.len() == 0 {
        true
    } else if a[0] != b[0] {
        (a[0] as u32) < (b[0] as u32)
    } else {
        text_less(a.drop_first(), b.drop_first())
    }
}

proof fn lemma_text_less_asymmetric(a: Seq<char>, b: Seq<char>)
    requires
        text_less(a, b),
    ensures
        !text_less(b, a),
    decreases a.len(),
{
    if a.len() > 0 && b.len() > 0 && a[0] == b[0] {
        lemma_text_less_asymmetric(a.drop_first(), b.drop_first());
    }
}

/// Whether `a` sorts strictly before `b`.
pub fn text_lt(a: &str, b: &str) -> (r: bool)
    ensures
        r == text_less(a@, b@),
{
    let la = a.unicode_len();
    let lb = b.unicode_len();
    let mut i: usize = 0;
    assert(a@.skip(0) =~= a@ && b@.skip(0) =~= b@);
    while i < la && i < lb
        invariant
            i <= la == a@.len(),
            i <= lb == b@.len(),
            text_less(a@, b@) == text_less(a@.skip(i as int), b@.skip(i as int)),
        decreases la - i,
    {
        let ca = a.get_char(i);
        let cb = b.get_char(i);
        assert(a@.skip(i as int)[0] == ca && b@.skip(i as int)[0] == cb);
        if ca != cb {
            return (ca as u32) < (cb as u32);
        }
        assert(a@.skip(i as int).drop_first() =~= a@.skip(i + 1));
        assert(b@.skip(i as int).drop_first() =~= b@.skip(i + 1));
        i = i + 1;
    }
    i < lb
}

/// Each instance's name sorts no later than the next one's.
pub open spec fn sorted_by_name(v: Seq<EC2Instance>) -> bool {
    forall|i: int|
        0 <= i < v.len() - 1 ==> !text_less(
            instance_name(#[trigger] v[i + 1].instance),
            instance_name(v[i].instance),
        )
}

proof fn lemma_insert_multiset<A>(s: Seq<A>, p: int, x: A)
    requires
        0 <= p <= s.len(),
    ensures
        s.insert(p, x).to_multiset() =~= s.to_multiset().insert(x),
{
    broadcast use vstd::seq_lib::group_to_multiset_ensures;

    let t = s.insert(p, x);
    assert(t.remove(p) =~= s);
    assert(t[p] == x);
    assert(t.contains(x));
}

/// Sorts instances by display name, keeping the order of equal names.
pub fn sort_by_name(instances: Vec<EC2Instance>) -> (r: Vec<EC2Instance>)
    ensures
        r@.to_multiset() == instances@.to_multiset(),
        sorted_by_name(r@),
{
    broadcast use vstd::seq_lib::group_to_multiset_ensures;

    let ghost all = instances@;
    let mut r: Vec<EC2Instance> = Vec::new();
    let mut names: Vec<String> = Vec::new();
    for inst in it: instances
        invariant
            it.seq() == all,
            r@.to_multiset() == all.take(it.index() as int).to_multiset(),
            sorted_by_name(r@),
            names@.len() == r@.len(),
            forall|k: int| 0 <= k < r@.len() ==> #[trigger] names@[k]@ == instance_name(r@[k].instance),
    {
        let ghost k0 = it.index();
        assert(inst == all[k0 as int]);
        let name = inst.get_name();
        let mut p: usize = 0;
        while p < r.len()
            invariant
                p <= r@.len(),
                names@.len() == r@.len(),
                forall|k: int| 0 <= k < r@.len() ==> #[trigger] names@[k]@ == instance_name(r@[k].instance),
                p > 0 ==> !text_less(name@, instance_name(r@[p - 1].instance)),
                sorted_by_name(r@),
                r@.to_multiset() == all.take(k0 as int).to_multiset(),
            ensures
                p <= r@.len(),
                sorted_by_name(r@),
                r@.to_multiset() == all.take(k0 as int).to_multiset(),
                names@.len() == r@.len(),
                forall|k: int| 0 <= k < r@.len() ==> #[trigger] names@[k]@ == instance_name(r@[k].instance),
                p < r@.len() ==> text_less(name@, instance_name(r@[p as int].instance)),
                p > 0 ==> !text_less(name@, instance_name(r@[p - 1].instance)),
            decreases r@.len() - p,
        {
            if text_lt(name.as_str(), names[p].as_str()) {
                break;
            }
            p = p + 1;
        }
        let ghost old_r = r@;
        proof {
            if p < old_r.len() {
                lemma_text_less_asymmetric(name@, instance_name(old_r[p as int].instance));
            }
            lemma_insert_multiset(old_r, p as int, inst);
            assert(all.take(k0 + 1) =~= all.take(k0 as int).push(all[k0 as int]));
        }
        r.insert(p, inst);
        names.insert(p, name);
        assert(r@.to_multiset() == old_r.to_multiset().insert(all[k0 as int]));
        proof {
            all.take(k0 as int).to_multiset_ensures();
        }
        assert(all.take(k0 as int).push(all[k0 as int]).to_multiset() == all.take(k0 as int).to_multiset().insert(all[k0 as int]));
        assert(all.take(k0 + 1) == all.take(k0 as int).push(all[k0 as int]));
        assert forall|i: int| 0 <= i < r@.len() - 1 implies !text_less(
            instance_name(#[trigger] r@[i + 1].instance),
            instance_name(r@[i].instance),
        ) by {
            if i + 1 < p {
                assert(r@[i] == old_r[i] && r@[i + 1] == old_r[i + 1]);
                assert(!text_less(instance_name(old_r[i + 1].instance), instance_name(old_r[i].instance)));
            } else if i + 1 == p {
                assert(r@[i] == old_r[i] && r@[i + 1] == all[k0 as int]);
                assert(!text_less(name@, instance_name(old_r[p - 1].instance)));
                assert(name@ == instance_name(all[k0 as int].instance));
            } else if i == p {
                assert(r@[i] == all[k0 as int] && r@[i + 1] == old_r[i]);
                assert(text_less(name@, instance_name(old_r[p as int].instance)));
                assert(!text_less(instance_name(old_r[p as int].instance), name@));
            } else {
                assert(r@[i] == old_r[i - 1] && r@[i + 1] == old_r[i]);
                let j = i - 1;
                assert(sorted_by_name(old_r));
                assert(!text_less(instance_name(old_r[j + 1].instance), instance_name(old_r[j].instance)));
            }
        }
        assert forall|k: int| 0 <= k < r@.len() implies #[trigger] names@[k]@ == instance_name(r@[k].instance) by {
            if k < p {
            } else if k > p {
                assert(r@[k] == old_r[k - 1]);
            }
        }
    }
    assert(all.take(all.len() as int) =~= all);
    r
}

} // verus!
