//! Child agents as the subjects of a watcher.

use crate::model::{lemma_filter_step, lemma_items_equal};
use crate::workspace::Uuid;
use std::collections::BTreeMap;
use vstd::prelude::*;
use vstd::std_specs::cmp::PartialEqSpecImpl;

verus! {

broadcast use {
    vstd::laws_cmp::group_laws_cmp,
    vstd::std_specs::btree::group_btree_axioms,
};

/// How many subjects must have signalled before a watcher reports.
#[derive(Debug, Clone, Copy, PartialEq, Eq, Structural)]
pub enum Aggregate {
    All,
    Any,
}

impl Default for Aggregate {
    fn default() -> (res: Aggregate)
        ensures
            res == Aggregate::All,
    {
        Aggregate::All
    }
}

/// What a watcher waits for a subject to do.
#[derive(Debug, Clone, Copy, PartialEq, Eq, Structural)]
pub enum AgentSignal {
    Exit,
    Attention,
}

/// The last known life of a child.
#[derive(Debug, Clone, Copy, PartialEq, Eq, Structural)]
pub enum SubjectLife {
    /// It works.
    Live,
    /// It is alive and waits on the parent.
    Parked,
    /// It is gone.
    Exited,
}

impl SubjectLife {
    /// What is said of a life.
    pub open spec fn text(self) -> Seq<char> {
        match self {
            SubjectLife::Live => "still working"@,
            SubjectLife::Parked => "alive and waiting on the parent"@,
            SubjectLife::Exited => "exited"@,
        }
    }

    /// Says how a child is.
    pub fn describe(&self) -> (res: &'static str)
        ensures
            res@ == self.text(),
    {
        match self {
            SubjectLife::Live => "still working",
            SubjectLife::Parked => "alive and waiting on the parent",
            SubjectLife::Exited => "exited",
        }
    }

    /// Whether a life is what a watcher waits for. A child that waits on the
    /// parent has not exited, and one that exited waits on nobody.
    pub open spec fn is_signal(self, signal: AgentSignal) -> bool {
        match signal {
            AgentSignal::Exit => self == SubjectLife::Exited,
            AgentSignal::Attention => self == SubjectLife::Parked,
        }
    }

    /// Whether a life is what a watcher waits for.
    pub fn signals(&self, signal: AgentSignal) -> (res: bool)
        ensures
            res == self.is_signal(signal),
    {
        match signal {
            AgentSignal::Exit => *self == SubjectLife::Exited,
            AgentSignal::Attention => *self == SubjectLife::Parked,
        }
    }
}

/// What was last heard of one child.
#[derive(Debug)]
pub struct SubjectRecord {
    pub life: SubjectLife,
    pub name: String,
}

/// The mathematical content of a [`SubjectRecord`].
#[verifier::ext_equal]
pub struct SubjectRecordView {
    pub life: SubjectLife,
    pub name: Seq<char>,
}

impl View for SubjectRecord {
    type V = SubjectRecordView;

    open spec fn view(&self) -> SubjectRecordView {
        SubjectRecordView {
            life: self.life,
            name: self.name@,
        }
    }
}

impl Clone for SubjectRecord {
    fn clone(&self) -> (res: Self)
        ensures
            res@ == self@,
    {
        SubjectRecord {
            life: self.life,
            name: self.name.clone(),
        }
    }
}

impl PartialEq for SubjectRecord {
    fn eq(&self, other: &Self) -> (res: bool) {
        self.life == other.life && self.name == other.name
    }
}

impl PartialEqSpecImpl for SubjectRecord {
    open spec fn obeys_eq_spec() -> bool {
        true
    }

    open spec fn eq_spec(&self, other: &Self) -> bool {
        self@ == other@
    }
}

impl Eq for SubjectRecord {

}

/// The children that a watcher waits for.
#[derive(Debug)]
pub struct AgentSubjects {
    pub subjects: Vec<Uuid>,
    pub signal: AgentSignal,
    pub aggregate: Aggregate,
}

/// The mathematical content of an [`AgentSubjects`].
#[verifier::ext_equal]
pub struct AgentSubjectsView {
    pub subjects: Seq<Uuid>,
    pub signal: AgentSignal,
    pub aggregate: Aggregate,
}

impl View for AgentSubjects {
    type V = AgentSubjectsView;

    open spec fn view(&self) -> AgentSubjectsView {
        AgentSubjectsView {
            subjects: self.subjects@,
            signal: self.signal,
            aggregate: self.aggregate,
        }
    }
}

impl Clone for AgentSubjects {
    fn clone(&self) -> (res: Self)
        ensures
            res@ == self@,
    {
        let res = AgentSubjects {
            subjects: self.subjects.clone(),
            signal: self.signal,
            aggregate: self.aggregate,
        };
        assert(res.subjects@ =~= self.subjects@);
        res
    }
}

impl PartialEq for AgentSubjects {
    fn eq(&self, other: &Self) -> (res: bool) {
        proof {
            lemma_items_equal(self.subjects@, other.subjects@);
        }
        self.subjects == other.subjects
            && self.signal == other.signal
            && self.aggregate == other.aggregate
    }
}

impl PartialEqSpecImpl for AgentSubjects {
    open spec fn obeys_eq_spec() -> bool {
        true
    }

    open spec fn eq_spec(&self, other: &Self) -> bool {
        self@ == other@
    }
}

impl Eq for AgentSubjects {

}

/// What was last heard of children, by the child.
pub open spec fn record_views(records: BTreeMap<Uuid, SubjectRecord>) -> Map<
    Uuid,
    SubjectRecordView,
> {
    records@.map_values(|record: SubjectRecord| record@)
}

/// The last known life of a child.
pub open spec fn life_of(records: Map<Uuid, SubjectRecordView>, subject: Uuid) -> Option<
    SubjectLife,
> {
    if records.contains_key(subject) {
        Some(records[subject].life)
    } else {
        None
    }
}

/// Selects the children that have signalled.
pub open spec fn signalled(records: Map<Uuid, SubjectRecordView>, signal: AgentSignal) -> spec_fn(
    Uuid,
) -> bool {
    |subject: Uuid|
        life_of(records, subject) is Some && life_of(records, subject)->Some_0.is_signal(signal)
}

impl AgentSubjectsView {
    /// The children that have signalled, and how they are.
    pub open spec fn reports(self, records: Map<Uuid, SubjectRecordView>) -> Seq<(Uuid, SubjectLife)> {
        self.subjects.filter(signalled(records, self.signal)).map_values(
            |subject: Uuid| (subject, life_of(records, subject)->Some_0),
        )
    }

    /// Whether enough children have signalled.
    pub open spec fn settles(self, records: Map<Uuid, SubjectRecordView>) -> bool {
        match self.aggregate {
            Aggregate::All => self.subjects.len() > 0 && forall|i: int|
                0 <= i < self.subjects.len() ==> signalled(records, self.signal)(
                    #[trigger] self.subjects[i],
                ),
            Aggregate::Any => exists|i: int|
                0 <= i < self.subjects.len() && signalled(records, self.signal)(
                    #[trigger] self.subjects[i],
                ),
        }
    }
}

impl AgentSubjects {
    /// The children to wait for, what each must do, and how many must do it.
    pub fn new(subjects: Vec<Uuid>, signal: AgentSignal, aggregate: Aggregate) -> (res:
        AgentSubjects)
        ensures
            res.subjects == subjects,
            res.signal == signal,
            res.aggregate == aggregate,
    {
        AgentSubjects { subjects, signal, aggregate }
    }

    /// The children that have signalled, where enough of them have.
    pub fn settle(&self, records: &BTreeMap<Uuid, SubjectRecord>) -> (res: Option<
        Vec<(Uuid, SubjectLife)>,
    >)
        ensures
            match res {
                Some(reports) => self@.settles(record_views(*records)) && reports@
                    == self@.reports(record_views(*records)),
                None => !self@.settles(record_views(*records)),
            },
    {
        let ghost known = record_views(*records);
        let ghost selected = signalled(known, self.signal);
        let ghost pair = |subject: Uuid| (subject, life_of(known, subject)->Some_0);
        let mut reports: Vec<(Uuid, SubjectLife)> = Vec::new();
        let mut missing: bool = false;
        let mut index: usize = 0;
        proof {
            reveal(Seq::filter);
            assert(self.subjects@.take(0) =~= Seq::<Uuid>::empty());
            assert(reports@ =~= self.subjects@.take(0).filter(selected).map_values(pair));
        }
        while index < self.subjects.len()
            invariant
                index <= self.subjects.len(),
                known == record_views(*records),
                selected == signalled(known, self.signal),
                pair == (|subject: Uuid| (subject, life_of(known, subject)->Some_0)),
                reports@ == self.subjects@.take(index as int).filter(selected).map_values(pair),
                missing == exists|i: int|
                    0 <= i < index && !selected(#[trigger] self.subjects@[i]),
                (reports@.len() > 0) == exists|i: int|
                    0 <= i < index && selected(#[trigger] self.subjects@[i]),
            decreases self.subjects.len() - index,
        {
            let subject: Uuid = self.subjects[index];
            let ghost before = self.subjects@.take(index as int).filter(selected);
            proof {
                lemma_filter_step(self.subjects@, index as int, selected);
            }
            let mut hit: bool = false;
            if let Some(record) = records.get(&subject) {
                let life = record.life;
                if life.signals(self.signal) {
                    hit = true;
                    assert(before.push(subject).map_values(pair) =~= before.map_values(pair).push(
                        pair(subject),
                    ));
                    reports.push((subject, life));
                }
            }
            assert(hit == selected(self.subjects@[index as int]));
            if !hit {
                missing = true;
            }
            proof {
                if missing {
                    if hit {
                        let i = choose|i: int|
                            0 <= i < index && !selected(#[trigger] self.subjects@[i]);
                        assert(!selected(self.subjects@[i]));
                    } else {
                        assert(!selected(self.subjects@[index as int]));
                    }
                }
                if reports@.len() > 0 && !hit {
                    let i = choose|i: int|
                        0 <= i < index && selected(#[trigger] self.subjects@[i]);
                    assert(selected(self.subjects@[i]));
                }
            }
            index = index + 1;
        }
        assert(self.subjects@.take(index as int) =~= self.subjects@);
        let enough = match self.aggregate {
            Aggregate::All => self.subjects.len() > 0 && !missing,
            Aggregate::Any => reports.len() > 0,
        };
        if enough {
            Some(reports)
        } else {
            None
        }
    }
}

} // verus!
