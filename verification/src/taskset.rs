//! Lists of CPU cores, such as `0,1,5-7`.
use vstd::prelude::*;
use vstd::std_specs::cmp::OrdSpec;
use vstd::std_specs::iter::IteratorSpec;
use std::collections::BTreeSet;
use crate::order::{ascending, is_listing, listing};
use crate::text::{
    chars_of, decimal, parse_unsigned, push_decimal, split, split_chars, split_once,
    split_once_chars, string_of, unsigned,
};

verus! {

broadcast use vstd::std_specs::btree::group_btree_axioms;

/// What the `Debug` notation of a string slice shows: the text in double quotes, with its
/// special characters escaped.
pub uninterp spec fn debug_text(s: Seq<char>) -> Seq<char>;

/// Formats a string slice with `{:?}`, the `Debug` notation of `std`. The contract gives the
/// result a name; which characters are escaped, and how, is left to `std`.
#[verifier::external_body]
fn quoted(s: &str) -> (r: String)
    ensures
        r@ == debug_text(s@),
{
    format!("{:?}", s)
}

/// Asks `affinity::get_thread_affinity` for the cores that the current thread is bound to.
/// `None` stands for its error. The answer depends on the machine and the thread, so nothing
/// is claimed of it.
#[verifier::external_body]
fn thread_affinity() -> (r: Option<Vec<usize>>) {
    affinity::get_thread_affinity().ok()
}

/// What is wrong with a list of cores.
pub enum Fault {
    /// This part of the list is not a number.
    Number(Seq<char>),
    /// The interval starts behind its end.
    Interval(Seq<char>),
    /// The cores of the current thread are not known.
    Affinity,
    /// A core lies beyond this one, the last core of the current thread.
    Range(nat),
}

/// What is wrong with a list of cores.
#[derive(Debug)]
pub enum TasksetError {
    /// This part of the list is not a number.
    Number(String),
    /// The interval starts behind its end.
    Interval(String),
    /// The cores of the current thread are not known.
    Affinity,
    /// A core lies beyond this one, the last core of the current thread.
    Range(usize),
}

impl View for TasksetError {
    type V = Fault;

    open spec fn view(&self) -> Fault {
        match self {
            TasksetError::Number(token) => Fault::Number(token@),
            TasksetError::Interval(token) => Fault::Interval(token@),
            TasksetError::Affinity => Fault::Affinity,
            TasksetError::Range(max) => Fault::Range(*max as nat),
        }
    }
}

impl Fault {
    /// The part of the list that is at fault.
    pub open spec fn token(self) -> Seq<char> {
        match self {
            Fault::Number(token) => token,
            Fault::Interval(token) => token,
            _ => Seq::<char>::empty(),
        }
    }

    /// The message for the fault, given how its part of the list and the list are quoted.
    pub open spec fn text(self, token: Seq<char>, taskset: Seq<char>) -> Seq<char> {
        match self {
            Fault::Number(_) => "failed to parse "@ + token + " from "@ + taskset,
            Fault::Interval(_) => "invalid interval "@ + token + " in "@ + taskset,
            Fault::Affinity => "failed to get affinity"@,
            Fault::Range(max) => "core index must be in the range [0, "@ + decimal(max) + "]"@,
        }
    }
}

/// The cores from `start` to `end`, both of them counted in.
pub open spec fn interval(start: usize, end: usize) -> Set<usize> {
    Set::new(|core: usize| start <= core <= end)
}

/// The core number that a text gives.
pub open spec fn core_number(s: Seq<char>) -> Result<usize, Fault> {
    match unsigned(s, usize::MAX as nat) {
        Ok(n) => Ok(n as usize),
        Err(_) => Err(Fault::Number(s)),
    }
}

/// The cores of one entry: a number, or two numbers with a dash between them.
pub open spec fn entry_cores(entry: Seq<char>) -> Result<Set<usize>, Fault> {
    match split_once(entry, '-') {
        Some((first, second)) => match core_number(first) {
            Err(fault) => Err(fault),
            Ok(start) => match core_number(second) {
                Err(fault) => Err(fault),
                Ok(end) => if start > end {
                    Err(Fault::Interval(entry))
                } else {
                    Ok(interval(start, end))
                },
            },
        },
        None => match core_number(entry) {
            Err(fault) => Err(fault),
            Ok(core) => Ok(interval(core, core)),
        },
    }
}

/// The cores of all entries together. The first faulty entry decides the fault.
pub open spec fn entries_cores(entries: Seq<Seq<char>>) -> Result<Set<usize>, Fault>
    decreases entries.len(),
{
    if entries.len() == 0 {
        Ok(Set::<usize>::empty())
    } else {
        match entries_cores(entries.drop_last()) {
            Err(fault) => Err(fault),
            Ok(before) => match entry_cores(entries.last()) {
                Err(fault) => Err(fault),
                Ok(cores) => Ok(before.union(cores)),
            },
        }
    }
}

/// The cores of a list of entries with commas between them.
pub open spec fn taskset_cores(taskset: Seq<char>) -> Result<Set<usize>, Fault> {
    entries_cores(split(taskset, ','))
}

/// The largest of the numbers, and zero where there is none.
pub open spec fn highest(cores: Seq<usize>) -> nat
    decreases cores.len(),
{
    if cores.len() == 0 {
        0
    } else if cores.last() > highest(cores.drop_last()) {
        cores.last() as nat
    } else {
        highest(cores.drop_last())
    }
}

/// The fault that keeps `cores` from being used by a thread that is bound to `bound`.
pub open spec fn affinity_fault(cores: Set<usize>, bound: Option<Seq<usize>>) -> Option<Fault> {
    if cores =~= Set::<usize>::empty() {
        None
    } else {
        match bound {
            None => Some(Fault::Affinity),
            Some(bound) => if exists|core: usize| cores.contains(core) && core > highest(bound) {
                Some(Fault::Range(highest(bound)))
            } else {
                None
            },
        }
    }
}

/// The cores that a list gives to a thread that is bound to `bound`, or the fault in the list.
pub open spec fn admitted_cores(
    taskset: Seq<char>,
    bound: Option<Seq<usize>>,
) -> Result<Set<usize>, Fault> {
    match taskset_cores(taskset) {
        Err(fault) => Err(fault),
        Ok(cores) => match affinity_fault(cores, bound) {
            Some(fault) => Err(fault),
            None => Ok(cores),
        },
    }
}

/// What the view of an optional list of cores is.
pub open spec fn bound_view(bound: Option<Vec<usize>>) -> Option<Seq<usize>> {
    match bound {
        Some(list) => Some(list@),
        None => None,
    }
}

/// Reads a core number.
fn parse_core(s: &Vec<char>) -> (r: Result<usize, TasksetError>)
    ensures
        match core_number(s@) {
            Ok(n) => r == Ok::<usize, TasksetError>(n),
            Err(fault) => r is Err && r->Err_0@ == fault,
        },
{
    match parse_unsigned(s, usize::MAX as u64) {
        Ok(n) => Ok(n as usize),
        Err(_) => Err(TasksetError::Number(string_of(s))),
    }
}

/// Reads one entry: its first and its last core.
fn parse_entry(entry: &Vec<char>) -> (r: Result<(usize, usize), TasksetError>)
    ensures
        match entry_cores(entry@) {
            Ok(cores) => {
                &&& r matches Ok(bounds)
                &&& bounds.0 <= bounds.1
                &&& cores == interval(bounds.0, bounds.1)
            },
            Err(fault) => r is Err && r->Err_0@ == fault,
        },
{
    match split_once_chars(entry, '-') {
        Some((first, second)) => {
            let start = parse_core(&first)?;
            let end = parse_core(&second)?;
            if start > end {
                Err(TasksetError::Interval(string_of(entry)))
            } else {
                Ok((start, end))
            }
        },
        None => {
            let core = parse_core(entry)?;
            Ok((core, core))
        },
    }
}

/// Puts the cores from `start` to `end` into the set.
fn insert_interval(set: &mut BTreeSet<usize>, start: usize, end: usize)
    requires
        start <= end,
    ensures
        final(set)@ == old(set)@.union(interval(start, end)),
{
    let ghost before = set@;
    set.insert(start);
    let mut core: usize = start;
    proof {
        assert(set@ =~= before.union(interval(start, core)));
    }
    while core < end
        invariant
            start <= core <= end,
            set@ == before.union(interval(start, core)),
        decreases end - core,
    {
        core = core + 1;
        set.insert(core);
        proof {
            assert(set@ =~= before.union(interval(start, core)));
        }
    }
}

/// The numbers of the set in ascending order.
fn ascending_cores(set: &BTreeSet<usize>) -> (r: Vec<usize>)
    ensures
        is_listing(r@, set@),
        r@ == listing(set@),
{
    let mut cores: Vec<usize> = Vec::new();
    for core in it: set.iter()
        invariant
            cores@ == it.seq().unref().take(it.index()),
    {
        cores.push(*core);
    }
    proof {
        let all = IteratorSpec::remaining(&vstd::std_specs::btree::spec_btree_keys_iter(set));
        assert(cores@ =~= all.unref());
        assert(vstd::laws_cmp::obeys_cmp::<&usize>());
        assert forall|i: int, j: int| 0 <= i < j < cores@.len() implies cores@[i] < cores@[j] by {
            assert(OrdSpec::cmp_spec(&all[i], &all[j]) is Less);
            assert(cores@[i] == *all[i] && cores@[j] == *all[j]);
        }
        crate::order::law_listing(cores@, set@);
    }
    cores
}

/// Reads a list of cores, such as `0,1,5-7`: each core once, in ascending order.
pub fn read_taskset(taskset: &str) -> (r: Result<Vec<usize>, TasksetError>)
    ensures
        match taskset_cores(taskset@) {
            Ok(cores) => r is Ok && is_listing(r->Ok_0@, cores) && r->Ok_0@ == listing(cores),
            Err(fault) => r is Err && r->Err_0@ == fault,
        },
{
    let chars = chars_of(taskset);
    let entries = split_chars(&chars, ',');
    let ghost all = crate::text::rows(entries@);
    let mut set: BTreeSet<usize> = BTreeSet::new();
    let mut i: usize = 0;
    while i < entries.len()
        invariant
            i <= entries@.len(),
            all == crate::text::rows(entries@),
            all == split(taskset@, ','),
            entries_cores(all.take(i as int)) == Ok::<Set<usize>, Fault>(set@),
        decreases entries@.len() - i,
    {
        let ghost seen = all.take(i + 1);
        proof {
            assert(seen.drop_last() =~= all.take(i as int));
            assert(seen.last() == entries@[i as int]@);
        }
        match parse_entry(&entries[i]) {
            Ok((start, end)) => {
                insert_interval(&mut set, start, end);
            },
            Err(error) => {
                proof {
                    lemma_entries_fault_stays(all, i + 1);
                }
                return Err(error);
            },
        }
        i = i + 1;
    }
    proof {
        assert(all.take(i as int) =~= all);
    }
    Ok(ascending_cores(&set))
}

/// A list that is faulty in its first entries is faulty in the same way as a whole.
proof fn lemma_entries_fault_stays(entries: Seq<Seq<char>>, n: int)
    requires
        0 <= n <= entries.len(),
        entries_cores(entries.take(n)) is Err,
    ensures
        entries_cores(entries) == entries_cores(entries.take(n)),
    decreases entries.len() - n,
{
    if n == entries.len() {
        assert(entries.take(n) =~= entries);
    } else {
        assert(entries.take(n + 1).drop_last() =~= entries.take(n));
        lemma_entries_fault_stays(entries, n + 1);
    }
}

/// The largest of the cores, and zero where there is none.
fn highest_core(cores: &Vec<usize>) -> (r: usize)
    ensures
        r == highest(cores@),
{
    let mut max: usize = 0;
    for i in 0..cores.len()
        invariant
            max == highest(cores@.take(i as int)),
    {
        proof {
            assert(cores@.take(i + 1).drop_last() =~= cores@.take(i as int));
        }
        if cores[i] > max {
            max = cores[i];
        }
    }
    proof {
        assert(cores@.take(cores@.len() as int) =~= cores@);
    }
    max
}

/// Hands the cores back if a thread that is bound to the cores `bound` may use them. `None`
/// stands for bounds that are not known.
pub fn restrict_to(cores: Vec<usize>, bound: Option<Vec<usize>>) -> (r: Result<
    Vec<usize>,
    TasksetError,
>)
    requires
        ascending(cores@),
    ensures
        match affinity_fault(cores@.to_set(), bound_view(bound)) {
            None => r == Ok::<Vec<usize>, TasksetError>(cores),
            Some(fault) => r is Err && r->Err_0@ == fault,
        },
{
    if cores.len() > 0 {
        let last = cores[cores.len() - 1];
        proof {
            assert(cores@.to_set().contains(last));
        }
        match bound {
            None => {
                return Err(TasksetError::Affinity);
            },
            Some(bound) => {
                let max = highest_core(&bound);
                if last > max {
                    return Err(TasksetError::Range(max));
                }
            },
        }
    } else {
        proof {
            assert(cores@.to_set() =~= Set::<usize>::empty());
        }
    }
    Ok(cores)
}

/// Describes the fault in a list of cores, given how its faulty part and the list are quoted.
pub fn describe(error: &TasksetError, token: &str, taskset: &str) -> (r: String)
    ensures
        r@ == error@.text(token@, taskset@),
{
    let mut out = String::new();
    match error {
        TasksetError::Number(_) => {
            out.append("failed to parse ");
            out.append(token);
            out.append(" from ");
            out.append(taskset);
        },
        TasksetError::Interval(_) => {
            out.append("invalid interval ");
            out.append(token);
            out.append(" in ");
            out.append(taskset);
        },
        TasksetError::Affinity => {
            out.append("failed to get affinity");
        },
        TasksetError::Range(max) => {
            out.append("core index must be in the range [0, ");
            push_decimal(&mut out, *max as u64);
            out.append("]");
        },
    }
    proof {
        assert(out@ =~= error@.text(token@, taskset@));
    }
    out
}

/// Whether `result` is what comes of a list of cores on a thread that is bound to `bound`.
pub open spec fn is_outcome(
    result: Result<Vec<usize>, String>,
    taskset: Seq<char>,
    bound: Option<Seq<usize>>,
) -> bool {
    match admitted_cores(taskset, bound) {
        Ok(cores) => {
            &&& result matches Ok(list)
            &&& is_listing(list@, cores)
            &&& list@ == listing(cores)
        },
        Err(fault) => {
            &&& result matches Err(message)
            &&& message@ == fault.text(debug_text(fault.token()), debug_text(taskset))
        },
    }
}

/// Parses a taskset string into a list of core IDs, for a thread that is bound to the cores
/// `bound`. `None` stands for bounds that are not known.
pub fn parse_taskset_within(taskset: &str, bound: Option<Vec<usize>>) -> (r: Result<
    Vec<usize>,
    String,
>)
    ensures
        is_outcome(r, taskset@, bound_view(bound)),
{
    let result = match read_taskset(taskset) {
        Ok(cores) => restrict_to(cores, bound),
        Err(error) => Err(error),
    };
    match result {
        Ok(cores) => Ok(cores),
        Err(error) => {
            let token = match &error {
                TasksetError::Number(token) => quoted(token.as_str()),
                TasksetError::Interval(token) => quoted(token.as_str()),
                _ => quoted(""),
            };
            proof {
                reveal_strlit("");
                assert(""@ =~= Seq::<char>::empty());
            }
            Err(describe(&error, token.as_str(), quoted(taskset).as_str()))
        },
    }
}

/// Parses a taskset string into a list of core IDs. For example, "0,1,5-7" will be parsed into
/// `[0, 1, 5, 6, 7]`. The cores must be within those that the current thread is bound to;
/// which ones these are, the machine decides.
pub fn parse_taskset(taskset: &str) -> (r: Result<Vec<usize>, String>)
    ensures
        exists|bound: Option<Seq<usize>>| #[trigger] is_outcome(r, taskset@, bound),
        taskset_cores(taskset@) is Err ==> is_outcome(r, taskset@, None),
{
    parse_taskset_within(taskset, thread_affinity())
}

/// A list without a fault names at least one core.
pub proof fn law_taskset_nonempty(taskset: Seq<char>)
    ensures
        taskset_cores(taskset) matches Ok(cores) ==> exists|core: usize| cores.contains(core),
{
    crate::text::law_split_join(taskset, ',');
    let entries = split(taskset, ',');
    if let Ok(cores) = taskset_cores(taskset) {
        law_entry_nonempty(entries.last());
        let core = choose|core: usize| (entry_cores(entries.last())->Ok_0).contains(core);
        assert(cores.contains(core));
    }
}

/// An entry without a fault names at least one core.
pub proof fn law_entry_nonempty(entry: Seq<char>)
    ensures
        entry_cores(entry) matches Ok(cores) ==> exists|core: usize| cores.contains(core),
{
    if let Ok(cores) = entry_cores(entry) {
        match split_once(entry, '-') {
            Some((first, _)) => {
                assert(cores.contains(core_number(first)->Ok_0));
            },
            None => {
                assert(cores.contains(core_number(entry)->Ok_0));
            },
        }
    }
}

/// A list names exactly the cores that its entries name.
pub proof fn law_entries_membership(entries: Seq<Seq<char>>)
    ensures
        entries_cores(entries) matches Ok(cores) ==> {
            &&& forall|i: int|
                0 <= i < entries.len() ==> entry_cores(#[trigger] entries[i]) is Ok
            &&& forall|core: usize|
                cores.contains(core) <==> exists|i: int|
                    0 <= i < entries.len() && (entry_cores(
                        #[trigger] entries[i],
                    )->Ok_0).contains(core)
        },
    decreases entries.len(),
{
    if entries.len() > 0 {
        let front = entries.drop_last();
        law_entries_membership(front);
        if let Ok(cores) = entries_cores(entries) {
            let before = entries_cores(front)->Ok_0;
            assert forall|i: int| 0 <= i < entries.len() implies entry_cores(
                #[trigger] entries[i],
            ) is Ok by {
                if i < front.len() {
                    assert(front[i] == entries[i]);
                }
            }
            assert forall|core: usize| cores.contains(core) implies exists|i: int|
                0 <= i < entries.len() && (entry_cores(#[trigger] entries[i])->Ok_0).contains(
                    core,
                ) by {
                if before.contains(core) {
                    let i = choose|i: int|
                        0 <= i < front.len() && (entry_cores(#[trigger] front[i])->Ok_0).contains(
                            core,
                        );
                    assert(entries[i] == front[i]);
                } else {
                    assert(entries[entries.len() - 1] == entries.last());
                }
            }
            assert forall|core: usize|
                (exists|i: int|
                    0 <= i < entries.len() && (entry_cores(#[trigger] entries[i])->Ok_0).contains(
                        core,
                    )) implies cores.contains(core) by {
                let i = choose|i: int|
                    0 <= i < entries.len() && (entry_cores(#[trigger] entries[i])->Ok_0).contains(
                        core,
                    );
                if i < front.len() {
                    assert(front[i] == entries[i]);
                    assert(before.contains(core));
                }
            }
        }
    }
}

/// A list is faulty where an entry is, and the first such entry decides its fault.
pub proof fn law_first_fault_decides(entries: Seq<Seq<char>>)
    ensures
        entries_cores(entries) matches Err(fault) ==> exists|i: int|
            {
                &&& 0 <= i < entries.len()
                &&& entry_cores(#[trigger] entries[i]) == Err::<Set<usize>, Fault>(fault)
                &&& forall|j: int| 0 <= j < i ==> entry_cores(#[trigger] entries[j]) is Ok
            },
    decreases entries.len(),
{
    if entries.len() > 0 {
        let front = entries.drop_last();
        law_first_fault_decides(front);
        law_entries_membership(front);
        assert(forall|i: int| 0 <= i < front.len() ==> #[trigger] entries[i] == front[i]);
        match entries_cores(front) {
            Err(fault) => {
                let i = choose|i: int|
                    {
                        &&& 0 <= i < front.len()
                        &&& entry_cores(#[trigger] front[i]) == Err::<Set<usize>, Fault>(fault)
                        &&& forall|j: int| 0 <= j < i ==> entry_cores(#[trigger] front[j]) is Ok
                    };
                assert(entry_cores(entries[i]) == Err::<Set<usize>, Fault>(fault));
            },
            Ok(_) => {
                let last = entries.len() - 1;
                assert(entries[last] == entries.last());
            },
        }
    }
}

/// The order of the entries does not matter, nor does how often one occurs: lists of the same
/// entries are all faulty or all without a fault, and then name the same cores.
pub proof fn law_entry_order(first: Seq<Seq<char>>, second: Seq<Seq<char>>)
    requires
        first.to_set() == second.to_set(),
    ensures
        entries_cores(first) is Ok <==> entries_cores(second) is Ok,
        entries_cores(first) is Ok ==> entries_cores(first) == entries_cores(second),
{
    if entries_cores(first) is Ok {
        lemma_same_entries(first, second);
    }
    if entries_cores(second) is Ok {
        lemma_same_entries(second, first);
    }
    if entries_cores(first) is Ok {
        assert(entries_cores(first)->Ok_0 =~= entries_cores(second)->Ok_0);
    }
}

/// Where one of two lists of the same entries is without a fault, so is the other, and names no
/// other cores.
proof fn lemma_same_entries(first: Seq<Seq<char>>, second: Seq<Seq<char>>)
    requires
        first.to_set() == second.to_set(),
        entries_cores(first) is Ok,
    ensures
        entries_cores(second) is Ok,
        (entries_cores(second)->Ok_0).subset_of(entries_cores(first)->Ok_0),
{
    law_entries_membership(first);
    law_entries_membership(second);
    law_first_fault_decides(second);
    assert forall|j: int| 0 <= j < second.len() implies first.contains(#[trigger] second[j]) by {
        assert(second.to_set().contains(second[j]));
        assert(first.to_set().contains(second[j]));
    }
    if entries_cores(second) is Err {
        let fault = entries_cores(second)->Err_0;
        let j = choose|j: int|
            {
                &&& 0 <= j < second.len()
                &&& entry_cores(#[trigger] second[j]) == Err::<Set<usize>, Fault>(fault)
                &&& forall|k: int| 0 <= k < j ==> entry_cores(#[trigger] second[k]) is Ok
            };
        let i = choose|i: int| 0 <= i < first.len() && #[trigger] first[i] == second[j];
        assert(entry_cores(first[i]) is Ok);
    }
    let all = entries_cores(first)->Ok_0;
    let some = entries_cores(second)->Ok_0;
    assert forall|core: usize| some.contains(core) implies all.contains(core) by {
        let j = choose|j: int|
            0 <= j < second.len() && (entry_cores(#[trigger] second[j])->Ok_0).contains(core);
        let i = choose|i: int| 0 <= i < first.len() && #[trigger] first[i] == second[j];
        assert((entry_cores(first[i])->Ok_0).contains(core));
    }
}

/// The decimal notation of each core.
pub open spec fn numerals(cores: Seq<usize>) -> Seq<Seq<char>> {
    cores.map_values(|core: usize| decimal(core as nat))
}

/// Decimal notation holds neither the separator of entries nor that of intervals.
proof fn lemma_numeral_plain(n: nat)
    ensures
        !decimal(n).contains(','),
        !decimal(n).contains('-'),
{
    crate::text::lemma_decimal_shape(n);
    if decimal(n).contains(',') {
        let i = choose|i: int| 0 <= i < decimal(n).len() && decimal(n)[i] == ',';
        assert(crate::text::is_digit(decimal(n)[i]));
    }
    if decimal(n).contains('-') {
        let i = choose|i: int| 0 <= i < decimal(n).len() && decimal(n)[i] == '-';
        assert(crate::text::is_digit(decimal(n)[i]));
    }
}

/// Core numbers that are written out with commas between them are read back.
pub proof fn law_numerals_read_back(cores: Seq<usize>)
    requires
        cores.len() > 0,
    ensures
        taskset_cores(crate::text::join(numerals(cores), ',')) == Ok::<Set<usize>, Fault>(
            cores.to_set(),
        ),
{
    let entries = numerals(cores);
    assert forall|i: int| 0 <= i < entries.len() implies !(#[trigger] entries[i]).contains(',') by {
        lemma_numeral_plain(cores[i] as nat);
    }
    crate::text::law_join_split(entries, ',');
    lemma_numerals_cores(cores);
}

/// The entries that are core numbers name these cores.
proof fn lemma_numerals_cores(cores: Seq<usize>)
    ensures
        entries_cores(numerals(cores)) == Ok::<Set<usize>, Fault>(cores.to_set()),
    decreases cores.len(),
{
    if cores.len() == 0 {
        assert(cores.to_set() =~= Set::<usize>::empty());
    } else {
        let front = cores.drop_last();
        let last = cores.last();
        lemma_numerals_cores(front);
        assert(numerals(cores).drop_last() =~= numerals(front));
        assert(numerals(cores).last() == decimal(last as nat));
        lemma_numeral_plain(last as nat);
        crate::text::law_decimal_reads_back(last as nat, usize::MAX as nat);
        assert(entry_cores(decimal(last as nat)) == Ok::<Set<usize>, Fault>(interval(last, last)));
        assert(front.to_set().union(interval(last, last)) =~= cores.to_set()) by {
            assert(cores =~= front.push(last));
            assert forall|core: usize| cores.to_set().contains(core) implies front.to_set().union(
                interval(last, last),
            ).contains(core) by {
                let i = choose|i: int| 0 <= i < cores.len() && cores[i] == core;
                if i < front.len() {
                    assert(front[i] == core);
                }
            }
            assert forall|core: usize|
                front.to_set().union(interval(last, last)).contains(
                    core,
                ) implies cores.to_set().contains(core) by {
                if front.to_set().contains(core) {
                    let i = choose|i: int| 0 <= i < front.len() && front[i] == core;
                    assert(cores[i] == core);
                } else {
                    assert(cores[cores.len() - 1] == core);
                }
            }
        }
    }
}

/// An interval that is written out is read back, if it does not start behind its end.
pub proof fn law_interval_reads_back(start: usize, end: usize)
    requires
        start <= end,
    ensures
        entry_cores(decimal(start as nat).push('-') + decimal(end as nat)) == Ok::<
            Set<usize>,
            Fault,
        >(interval(start, end)),
{
    let first = decimal(start as nat);
    let second = decimal(end as nat);
    let entry = first.push('-') + second;
    lemma_numeral_plain(start as nat);
    crate::text::law_decimal_reads_back(start as nat, usize::MAX as nat);
    crate::text::law_decimal_reads_back(end as nat, usize::MAX as nat);
    assert(entry[first.len() as int] == '-');
    entry.index_of_first_ensures('-');
    let at = entry.index_of_first('-')->0;
    assert(at == first.len()) by {
        if at < first.len() {
            assert(first[at] == '-');
        }
    }
    assert(entry.take(at) =~= first);
    assert(entry.skip(at + 1) =~= second);
}

/// The limit of a range check is itself a core of the list, and no core of the list is larger.
/// Without any core it is zero.
pub proof fn law_highest_is_largest(cores: Seq<usize>)
    ensures
        cores.len() == 0 ==> highest(cores) == 0,
        cores.len() > 0 ==> exists|i: int| 0 <= i < cores.len() && #[trigger] cores[i] == highest(
            cores,
        ),
        forall|i: int| 0 <= i < cores.len() ==> #[trigger] cores[i] <= highest(cores),
    decreases cores.len(),
{
    if cores.len() > 0 {
        let front = cores.drop_last();
        let last = cores.len() - 1;
        law_highest_is_largest(front);
        assert(forall|i: int| 0 <= i < front.len() ==> #[trigger] cores[i] == front[i]);
        assert(cores[last] == cores.last());
        if cores.last() as nat == highest(cores) {
            assert(cores[last] == highest(cores));
        } else if front.len() > 0 {
            let i = choose|i: int| 0 <= i < front.len() && #[trigger] front[i] == highest(front);
            assert(cores[i] == highest(cores));
        }
    }
}

/// Cores that are each reached by a core of the thread are allowed. A core beyond all cores of
/// the thread is refused, with the last core of the thread as the limit. Where the cores of the
/// thread are not known, only no cores at all are allowed.
pub proof fn law_range_check(cores: Set<usize>, bound: Seq<usize>)
    ensures
        (forall|core: usize| #[trigger]
            cores.contains(core) ==> exists|i: int| 0 <= i < bound.len() && core <= bound[i])
            ==> affinity_fault(cores, Some(bound)) is None,
        (exists|core: usize| #[trigger]
            cores.contains(core) && core > 0 && forall|i: int|
                0 <= i < bound.len() ==> core > bound[i]) ==> {
            &&& affinity_fault(cores, Some(bound)) matches Some(Fault::Range(limit))
            &&& bound.len() == 0 ==> limit == 0
            &&& bound.len() > 0 ==> exists|i: int| 0 <= i < bound.len() && bound[i] == limit
            &&& forall|i: int| 0 <= i < bound.len() ==> bound[i] <= limit
        },
        bound.len() == 0 && cores == set![0usize] ==> affinity_fault(cores, Some(bound)) is None,
        (exists|core: usize| cores.contains(core)) ==> affinity_fault(cores, None) == Some(
            Fault::Affinity,
        ),
        cores == Set::<usize>::empty() ==> affinity_fault(cores, None) is None,
{
    law_highest_is_largest(bound);
    if exists|core: usize| #[trigger]
        cores.contains(core) && core > 0 && forall|i: int|
            0 <= i < bound.len() ==> core > bound[i] {
        let core = choose|core: usize| #[trigger]
            cores.contains(core) && core > 0 && forall|i: int|
                0 <= i < bound.len() ==> core > bound[i];
        assert(core > highest(bound));
        assert(cores.contains(core));
    }
}

/// The cores from one to another are those and the ones between them.
pub proof fn law_interval_members(start: usize, end: usize, core: usize)
    ensures
        interval(start, end).contains(core) <==> start <= core && core <= end,
{
}

/// An entry without a dash names the core that it is the number of, and no other.
pub proof fn law_entry_of_one(entry: Seq<char>)
    requires
        !entry.contains('-'),
    ensures
        match unsigned(entry, usize::MAX as nat) {
            Ok(n) => {
                &&& entry_cores(entry) matches Ok(cores)
                &&& forall|core: usize| #[trigger] cores.contains(core) <==> core == n
            },
            Err(_) => entry_cores(entry) == Err::<Set<usize>, Fault>(Fault::Number(entry)),
        },
{
    crate::text::law_unsigned_bound(entry, usize::MAX as nat);
    crate::text::law_split_once_parts(entry, Seq::<char>::empty(), '-');
}

/// An entry with a dash names the cores from the number before its first dash to the one behind
/// it. If one of these is not a number, it is at fault, the first before the second; if they
/// stand in the wrong order, the whole entry is.
pub proof fn law_entry_of_two(first: Seq<char>, second: Seq<char>)
    requires
        !first.contains('-'),
    ensures
        ({
            let entry = first + seq!['-'] + second;
            let start = unsigned(first, usize::MAX as nat);
            let end = unsigned(second, usize::MAX as nat);
            &&& start is Err ==> entry_cores(entry) == Err::<Set<usize>, Fault>(
                Fault::Number(first),
            )
            &&& start is Ok && end is Err ==> entry_cores(entry) == Err::<Set<usize>, Fault>(
                Fault::Number(second),
            )
            &&& start is Ok && end is Ok && start->Ok_0 > end->Ok_0 ==> entry_cores(entry) == Err::<
                Set<usize>,
                Fault,
            >(Fault::Interval(entry))
            &&& start is Ok && end is Ok && start->Ok_0 <= end->Ok_0 ==> {
                &&& entry_cores(entry) matches Ok(cores)
                &&& forall|core: usize| #[trigger]
                    cores.contains(core) <==> start->Ok_0 <= core && core <= end->Ok_0
            }
        }),
{
    crate::text::law_unsigned_bound(first, usize::MAX as nat);
    crate::text::law_unsigned_bound(second, usize::MAX as nat);
    crate::text::law_split_once_parts(first, second, '-');
}

/// A list of one entry names the cores of the entry. A list with a comma names the cores of the
/// entry before it, and those of the list behind it; the fault of the entry comes before that of
/// the list.
pub proof fn law_list_of_entries(entry: Seq<char>, rest: Seq<char>)
    requires
        !entry.contains(','),
    ensures
        taskset_cores(entry) is Ok <==> entry_cores(entry) is Ok,
        taskset_cores(entry) is Ok ==> forall|core: usize| #[trigger]
            (taskset_cores(entry)->Ok_0).contains(core) <==> (entry_cores(
                entry,
            )->Ok_0).contains(core),
        taskset_cores(entry) matches Err(fault) ==> entry_cores(entry) == Err::<Set<usize>, Fault>(
            fault,
        ),
        ({
            let list = entry + seq![','] + rest;
            &&& entry_cores(entry) matches Err(fault) ==> taskset_cores(list) == Err::<
                Set<usize>,
                Fault,
            >(fault)
            &&& (entry_cores(entry) is Ok ==> {
                &&& taskset_cores(list) is Ok <==> taskset_cores(rest) is Ok
                &&& taskset_cores(rest) is Err ==> taskset_cores(list) == taskset_cores(rest)
                &&& taskset_cores(rest) is Ok ==> forall|core: usize| #[trigger]
                    (taskset_cores(list)->Ok_0).contains(core) <==> (entry_cores(
                        entry,
                    )->Ok_0).contains(core) || (taskset_cores(rest)->Ok_0).contains(core)
            })
        }),
{
    crate::text::law_split_pieces(entry, rest, ',');
    assert(seq![entry].drop_last() =~= Seq::<Seq<char>>::empty());
    assert(seq![entry].last() == entry);
    reveal_with_fuel(entries_cores, 2);
    lemma_entries_behind(entry, split(rest, ','));
}

/// The entries behind the first one add their cores, or their fault.
proof fn lemma_entries_behind(entry: Seq<char>, rest: Seq<Seq<char>>)
    ensures
        entry_cores(entry) matches Err(fault) ==> entries_cores(seq![entry] + rest) == Err::<
            Set<usize>,
            Fault,
        >(fault),
        entry_cores(entry) matches Ok(cores) ==> match entries_cores(rest) {
            Err(fault) => entries_cores(seq![entry] + rest) == Err::<Set<usize>, Fault>(fault),
            Ok(others) => {
                &&& entries_cores(seq![entry] + rest) matches Ok(all)
                &&& all =~= cores.union(others)
            },
        },
    decreases rest.len(),
{
    let all = seq![entry] + rest;
    if rest.len() == 0 {
        assert(all =~= seq![entry]);
        assert(all.drop_last() =~= Seq::<Seq<char>>::empty());
        reveal_with_fuel(entries_cores, 2);
    } else {
        lemma_entries_behind(entry, rest.drop_last());
        assert(all.drop_last() =~= seq![entry] + rest.drop_last());
        assert(all.last() == rest.last());
    }
}

/// What a list of cores comes to on a thread. Where each core is reached by a core of the thread,
/// it is the named cores, each once and in ascending order. A core beyond all of them is refused
/// with the largest as the limit, and unknown cores of the thread are reported.
pub proof fn law_outcome(
    result: Result<Vec<usize>, String>,
    taskset: Seq<char>,
    bound: Seq<usize>,
    limit: usize,
)
    requires
        taskset_cores(taskset) is Ok,
        bound.contains(limit),
        forall|i: int| 0 <= i < bound.len() ==> #[trigger] bound[i] <= limit,
    ensures
        ({
            let cores = taskset_cores(taskset)->Ok_0;
            &&& is_outcome(result, taskset, Some(bound)) && (forall|core: usize| #[trigger]
                cores.contains(core) ==> core <= limit) ==> {
                &&& result matches Ok(list)
                &&& forall|i: int, j: int| 0 <= i < j < list@.len() ==> list@[i] < list@[j]
                &&& forall|core: usize| #[trigger]
                    cores.contains(core) <==> exists|i: int|
                        0 <= i < list@.len() && list@[i] == core
            }
            &&& is_outcome(result, taskset, Some(bound)) && (exists|core: usize| #[trigger]
                cores.contains(core) && core > limit) ==> {
                &&& result matches Err(message)
                &&& message@ == "core index must be in the range [0, "@ + decimal(limit as nat)
                    + "]"@
            }
            &&& is_outcome(result, taskset, None) ==> {
                &&& result matches Err(message)
                &&& message@ == "failed to get affinity"@
            }
        }),
{
    let cores = taskset_cores(taskset)->Ok_0;
    law_highest_is_largest(bound);
    law_taskset_nonempty(taskset);
    assert(highest(bound) == limit);
    law_range_check(cores, bound);
    if let Ok(list) = result {
        crate::order::law_listing_meaning(list@, cores);
    }
}

/// What a faulty list of cores comes to, whatever the cores of the thread are.
pub proof fn law_faulty_outcome(
    result: Result<Vec<usize>, String>,
    taskset: Seq<char>,
    bound: Option<Seq<usize>>,
    part: Seq<char>,
)
    requires
        is_outcome(result, taskset, bound),
    ensures
        taskset_cores(taskset) == Err::<Set<usize>, Fault>(Fault::Number(part)) ==> {
            &&& result matches Err(message)
            &&& message@ == "failed to parse "@ + debug_text(part) + " from "@ + debug_text(
                taskset,
            )
        },
        taskset_cores(taskset) == Err::<Set<usize>, Fault>(Fault::Interval(part)) ==> {
            &&& result matches Err(message)
            &&& message@ == "invalid interval "@ + debug_text(part) + " in "@ + debug_text(taskset)
        },
{
}

/// A fault of a list lies in a part of it, and what a thread may use is no fault of a list.
pub proof fn law_taskset_fault(taskset: Seq<char>)
    ensures
        taskset_cores(taskset) matches Err(fault) ==> fault is Number || fault is Interval,
{
    law_first_fault_decides(split(taskset, ','));
}

/// How a fault is described, given how its part of the list and the list are quoted.
pub proof fn law_fault_texts(part: Seq<char>, limit: nat, token: Seq<char>, taskset: Seq<char>)
    ensures
        Fault::Number(part).text(token, taskset) == "failed to parse "@ + token + " from "@
            + taskset,
        Fault::Interval(part).text(token, taskset) == "invalid interval "@ + token + " in "@
            + taskset,
        Fault::Affinity.text(token, taskset) == "failed to get affinity"@,
        Fault::Range(limit).text(token, taskset) == "core index must be in the range [0, "@
            + decimal(limit) + "]"@,
        Fault::Number(part).token() == part,
        Fault::Interval(part).token() == part,
{
}

/// A known list of cores stands for its cores, in their order; an unknown one for none.
pub proof fn law_bound_view(bound: Option<Vec<usize>>)
    ensures
        bound is None <==> bound_view(bound) is None,
        bound matches Some(list) ==> bound_view(bound) == Some(list@),
{
}

/// Whether a list without a fault is used depends on the range check alone: it comes to its cores
/// where the check finds no fault, and to the description of the fault where it finds one.
pub proof fn law_outcome_by_range_check(
    result: Result<Vec<usize>, String>,
    taskset: Seq<char>,
    bound: Option<Seq<usize>>,
)
    requires
        is_outcome(result, taskset, bound),
        taskset_cores(taskset) is Ok,
    ensures
        ({
            let cores = taskset_cores(taskset)->Ok_0;
            match affinity_fault(cores, bound) {
                None => {
                    &&& result matches Ok(list)
                    &&& forall|i: int, j: int| 0 <= i < j < list@.len() ==> list@[i] < list@[j]
                    &&& forall|core: usize| #[trigger]
                        cores.contains(core) <==> exists|i: int|
                            0 <= i < list@.len() && list@[i] == core
                },
                Some(Fault::Range(limit)) => {
                    &&& result matches Err(message)
                    &&& message@ == "core index must be in the range [0, "@ + decimal(limit) + "]"@
                },
                Some(_) => {
                    &&& result matches Err(message)
                    &&& message@ == "failed to get affinity"@
                },
            }
        }),
{
    if let Ok(list) = result {
        crate::order::law_listing_meaning(list@, taskset_cores(taskset)->Ok_0);
    }
}

} // verus!
