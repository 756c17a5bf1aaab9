//! The records that pass between the session and whatever stores them:
//! the log of finished work units, the timer that is running, and the
//! choice of store.

use crate::text::read_count;
use crate::todo::{item_views, State, StateView, TodoItem};
use vstd::prelude::*;

verus! {

/// One finished work unit: the task's id and when it was finished, as text.
#[derive(Debug)]
pub struct TaskLogJson {
    pub id: String,
    pub date: String,
}

/// The mathematical value of a log entry.
pub struct TaskLogView {
    pub id: Seq<char>,
    pub date: Seq<char>,
}

impl View for TaskLogJson {
    type V = TaskLogView;

    open spec fn view(&self) -> TaskLogView {
        TaskLogView { id: self.id@, date: self.date@ }
    }
}

impl Clone for TaskLogJson {
    fn clone(&self) -> (copy: Self)
        ensures
            copy@ == self@,
    {
        TaskLogJson { id: self.id.clone(), date: self.date.clone() }
    }
}

/// The values of a sequence of log entries.
pub open spec fn log_views(logs: Seq<TaskLogJson>) -> Seq<TaskLogView> {
    Seq::new(logs.len(), |i: int| logs[i]@)
}

/// The timer that is running, as it is stored to survive a restart: the
/// task it runs for, the second it started at, and the phase it runs in.
/// Each part is `None` when nothing was stored.
#[derive(Debug)]
pub struct TaskDealing {
    pub id: Option<String>,
    pub date: Option<i64>,
    pub state: Option<State>,
}

/// The mathematical value of a stored timer.
pub struct TaskDealingView {
    pub id: Option<Seq<char>>,
    pub date: Option<int>,
    pub state: Option<StateView>,
}

impl View for TaskDealing {
    type V = TaskDealingView;

    open spec fn view(&self) -> TaskDealingView {
        TaskDealingView {
            id: match self.id {
                Some(id) => Some(id@),
                None => None,
            },
            date: match self.date {
                Some(date) => Some(date as int),
                None => None,
            },
            state: match self.state {
                Some(state) => Some(state@),
                None => None,
            },
        }
    }
}

impl TaskDealing {
    /// The record of no timer.
    pub fn empty() -> (dealing: Self)
        ensures
            dealing@ == (TaskDealingView { id: None, date: None, state: None }),
    {
        TaskDealing { id: None, date: None, state: None }
    }
}

/// The stores that tasks can be kept in.
#[derive(Debug, PartialEq, Eq, Clone, Copy, Structural)]
pub enum TypeDataManager {
    DataManageJson,
    DataManageFirebase,
}

impl TypeDataManager {
    /// The name a store is offered under.
    pub open spec fn spec_name(self) -> Seq<char> {
        match self {
            TypeDataManager::DataManageJson => "Json"@,
            TypeDataManager::DataManageFirebase => "Firebase"@,
        }
    }

    /// The place of a store in the list of stores.
    pub open spec fn spec_index(self) -> nat {
        match self {
            TypeDataManager::DataManageJson => 0,
            TypeDataManager::DataManageFirebase => 1,
        }
    }

    /// The name this store is offered under.
    pub fn name(self) -> (name: String)
        ensures
            name@ == self.spec_name(),
    {
        match self {
            Self::DataManageJson => "Json".to_owned(),
            Self::DataManageFirebase => "Firebase".to_owned(),
        }
    }

    /// The store with the given name, the first in the list if two had it.
    pub fn from_name(name: &str) -> (found: Option<Self>)
        ensures
            match found {
                Some(store) => store.spec_name() == name@,
                None => forall|store: TypeDataManager| store.spec_name() != name@,
            },
    {
        let wanted = name.to_owned();
        if wanted == Self::DataManageJson.name() {
            Some(Self::DataManageJson)
        } else if wanted == Self::DataManageFirebase.name() {
            Some(Self::DataManageFirebase)
        } else {
            None
        }
    }

    /// Every store's place in the list and its name, in the list's order.
    pub fn get_all_type_name_and_index() -> (all: Vec<(usize, String)>)
        ensures
            all.len() == 2,
            forall|i: int| 0 <= i < all.len() ==> (#[trigger] all[i]).0 == i,
            forall|store: TypeDataManager| #[trigger]
                all[store.spec_index() as int].1@ == store.spec_name(),
    {
        let mut all: Vec<(usize, String)> = Vec::new();
        all.push((0, Self::DataManageJson.name()));
        all.push((1, Self::DataManageFirebase.name()));
        all
    }

    /// The store at the given place in the list.
    pub fn from_index(index: usize) -> (found: Option<Self>)
        ensures
            match found {
                Some(store) => store.spec_index() == index,
                None => index >= 2,
            },
    {
        if index == 0 {
            Some(Self::DataManageJson)
        } else if index == 1 {
            Some(Self::DataManageFirebase)
        } else {
            None
        }
    }

    /// The store that the user chose by typing `choice`, which is to be the
    /// place of a store in the list, written as a count.
    pub fn select(choice: &str) -> (found: Option<Self>)
        ensures
            match found {
                Some(store) => crate::text::parse_count(choice@) == Some(store.spec_index()),
                None => match crate::text::parse_count(choice@) {
                    Some(index) => index >= 2,
                    None => true,
                },
            },
    {
        match read_count(choice) {
            Some(index) => Self::from_index(index),
            None => None,
        }
    }
}

/// The archive after `finished` was put in front of what it held: nothing
/// of either is lost, and the order within each stays.
pub fn merge_archive(finished: Vec<TodoItem>, current: Vec<TodoItem>) -> (merged: Vec<TodoItem>)
    ensures
        item_views(merged@) == item_views(finished@) + item_views(current@),
{
    let mut merged = finished;
    let mut rest = current;
    merged.append(&mut rest);
    proof {
        assert(item_views(merged@) =~= item_views(finished@) + item_views(current@));
    }
    merged
}

} // verus!
