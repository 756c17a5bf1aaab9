//! Tasks, the task registry and the session state cycle.

use crate::text::{
    compare_texts, decimal, fields, lemma_text_order_same, parse_count, push_decimal, read_count,
    split_fields, text_order, texts, TextOrder,
};
use rand::Rng;
use std::cmp::Ordering;
use vstd::prelude::*;

verus! {

/// Seconds in one unit of session time.
pub const ONE_MINUTE: usize = 60;

/// Why a request on tasks was turned down.
#[derive(Clone, Copy, Debug, PartialEq, Eq, Structural)]
pub enum TodoError {
    /// A task with the same id is already registered.
    DuplicateId,
    /// No task with that id is registered.
    NotFound,
    /// The text is not `title tag project estimate`.
    ParseError,
}

impl TodoError {
    /// The sentence shown to the user for this error.
    pub open spec fn message_text(self) -> Seq<char> {
        match self {
            TodoError::DuplicateId => "id is duplicated."@,
            TodoError::NotFound => "selected todo is not exist."@,
            TodoError::ParseError => "Todo String Parse Error."@,
        }
    }

    /// The sentence shown to the user for this error.
    pub fn message(&self) -> (text: String)
        ensures
            text@ == self.message_text(),
    {
        match self {
            TodoError::DuplicateId => "id is duplicated.".to_owned(),
            TodoError::NotFound => "selected todo is not exist.".to_owned(),
            TodoError::ParseError => "Todo String Parse Error.".to_owned(),
        }
    }
}

/// One task.
#[derive(Debug)]
pub struct TodoItem {
    pub id: String,
    pub title: String,
    pub tag: String,
    pub project: String,
    pub estimate_count: usize,
    pub executed_count: usize,
    pub finished: bool,
    pub detail: String,
}

/// The mathematical value of a task.
pub struct TodoItemView {
    pub id: Seq<char>,
    pub title: Seq<char>,
    pub tag: Seq<char>,
    pub project: Seq<char>,
    pub estimate_count: nat,
    pub executed_count: nat,
    pub finished: bool,
    pub detail: Seq<char>,
}

impl View for TodoItem {
    type V = TodoItemView;

    open spec fn view(&self) -> TodoItemView {
        TodoItemView {
            id: self.id@,
            title: self.title@,
            tag: self.tag@,
            project: self.project@,
            estimate_count: self.estimate_count as nat,
            executed_count: self.executed_count as nat,
            finished: self.finished,
            detail: self.detail@,
        }
    }
}

impl Clone for TodoItem {
    fn clone(&self) -> (copy: Self)
        ensures
            copy@ == self@,
    {
        TodoItem {
            id: self.id.clone(),
            title: self.title.clone(),
            tag: self.tag.clone(),
            project: self.project.clone(),
            estimate_count: self.estimate_count,
            executed_count: self.executed_count,
            finished: self.finished,
            detail: self.detail.clone(),
        }
    }
}

/// Two tasks are equal when title, tag and project agree; the id and the
/// counts play no part.
impl PartialEq for TodoItem {
    fn eq(&self, other: &Self) -> (same: bool) {
        self.title == other.title && self.tag == other.tag && self.project == other.project
    }
}

impl vstd::std_specs::cmp::PartialEqSpecImpl for TodoItem {
    open spec fn obeys_eq_spec() -> bool {
        true
    }

    open spec fn eq_spec(&self, other: &Self) -> bool {
        self.title@ == other.title@ && self.tag@ == other.tag@ && self.project@ == other.project@
    }
}

impl Eq for TodoItem {

}

/// How one task stands to another in the order of tasks: by project, then
/// by tag, then by title, each in the order of the dictionary. The id and
/// the counts play no part.
pub open spec fn item_order(a: TodoItemView, b: TodoItemView) -> TextOrder {
    if text_order(a.project, b.project) != TextOrder::Same {
        text_order(a.project, b.project)
    } else if text_order(a.tag, b.tag) != TextOrder::Same {
        text_order(a.tag, b.tag)
    } else {
        text_order(a.title, b.title)
    }
}

/// Two tasks are the same in the order exactly if they are equal: if
/// title, tag and project agree, whatever their ids are.
pub proof fn lemma_item_order_same(a: TodoItemView, b: TodoItemView)
    ensures
        item_order(a, b) == TextOrder::Same <==> a.title == b.title && a.tag == b.tag && a.project
            == b.project,
{
    lemma_text_order_same(a.project, b.project);
    lemma_text_order_same(a.tag, b.tag);
    lemma_text_order_same(a.title, b.title);
}

/// If one task stands before another, the other stands after it.
pub proof fn lemma_item_order_reversed(a: TodoItemView, b: TodoItemView)
    ensures
        item_order(b, a) == item_order(a, b).reversed(),
{
    crate::text::lemma_text_order_reversed(a.project, b.project);
    crate::text::lemma_text_order_reversed(a.tag, b.tag);
    crate::text::lemma_text_order_reversed(a.title, b.title);
}

impl TodoItem {
    /// Where the task stands relative to `other` in the order of tasks.
    pub fn compare(&self, other: &Self) -> (order: TextOrder)
        ensures
            order == item_order(self@, other@),
    {
        let by_project = compare_texts(self.project.as_str(), other.project.as_str());
        if by_project != TextOrder::Same {
            return by_project;
        }
        let by_tag = compare_texts(self.tag.as_str(), other.tag.as_str());
        if by_tag != TextOrder::Same {
            return by_tag;
        }
        compare_texts(self.title.as_str(), other.title.as_str())
    }
}

impl PartialOrd for TodoItem {
    fn partial_cmp(&self, other: &Self) -> (order: Option<Ordering>) {
        match self.compare(other) {
            TextOrder::Before => Some(Ordering::Less),
            TextOrder::Same => Some(Ordering::Equal),
            TextOrder::After => Some(Ordering::Greater),
        }
    }
}

impl vstd::std_specs::cmp::PartialOrdSpecImpl for TodoItem {
    open spec fn obeys_partial_cmp_spec() -> bool {
        true
    }

    open spec fn partial_cmp_spec(&self, other: &Self) -> Option<Ordering> {
        match item_order(self@, other@) {
            TextOrder::Before => Some(Ordering::Less),
            TextOrder::Same => Some(Ordering::Equal),
            TextOrder::After => Some(Ordering::Greater),
        }
    }
}

/// The number of letters in a generated id.
pub const ID_LENGTH: usize = 10;

/// Whether `id` has the shape of a generated id: ten lower-case letters.
pub open spec fn is_generated_id(id: Seq<char>) -> bool {
    id.len() == ID_LENGTH && forall|i: int| 0 <= i < id.len() ==> 'a' <= #[trigger] id[i] <= 'z'
}

/// Whether `text` is of the form `title tag project estimate`: four fields
/// with single spaces between them, the last one a count.
pub open spec fn is_item_text(text: Seq<char>) -> bool {
    fields(text).len() == 4 && parse_count(fields(text)[3]).is_some()
}

/// What `text` says of a new task with the given id, if it is of the form
/// `title tag project estimate`.
pub open spec fn parsed_item(id: Seq<char>, text: Seq<char>) -> Option<TodoItemView> {
    let parts = fields(text);
    if is_item_text(text) {
        Some(
            TodoItemView {
                id,
                title: parts[0],
                tag: parts[1],
                project: parts[2],
                estimate_count: parse_count(parts[3]).unwrap(),
                executed_count: 0,
                finished: false,
                detail: Seq::empty(),
            },
        )
    } else {
        None
    }
}

/// Draws a number with `rand::thread_rng().gen_range(low..high)`. The
/// generator hands back a number of the half-open range it is given, and
/// which one is left to chance: only the range is claimed here. On an empty
/// range the generator panics, so `requires` leaves that out.
#[verifier::external_body]
fn random_in_range(low: u32, high: u32) -> (drawn: u32)
    requires
        low < high,
    ensures
        low <= drawn < high,
{
    rand::thread_rng().gen_range(low..high)
}

/// A new id of ten lower-case letters, each drawn at random.
pub fn generate_id() -> (id: String)
    ensures
        is_generated_id(id@),
{
    let mut id = String::new();
    let mut drawn: usize = 0;
    while drawn < ID_LENGTH
        invariant
            drawn <= ID_LENGTH,
            id@.len() == drawn,
            forall|i: int| 0 <= i < id@.len() ==> 'a' <= #[trigger] id@[i] <= 'z',
        decreases ID_LENGTH - drawn,
    {
        let code = random_in_range(97, 123);
        let letter = (code as u8) as char;
        id.push(letter);
        drawn += 1;
    }
    id
}

impl TodoItem {
    /// An unfinished task with the given contents.
    pub fn new(
        id: String,
        title: String,
        tag: String,
        project: String,
        estimate_count: usize,
        executed_count: usize,
        detail: String,
    ) -> (item: Self)
        ensures
            item@ == (TodoItemView {
                id: id@,
                title: title@,
                tag: tag@,
                project: project@,
                estimate_count: estimate_count as nat,
                executed_count: executed_count as nat,
                finished: false,
                detail: detail@,
            }),
    {
        TodoItem { id, title, tag, project, estimate_count, executed_count, finished: false, detail }
    }

    /// Reads `text` as `title tag project estimate` and makes the task
    /// with the given id out of it.
    pub fn parse_with_id(id: String, text: &str) -> (res: Result<TodoItem, TodoError>)
        ensures
            match res {
                Ok(item) => parsed_item(id@, text@) == Some(item@),
                Err(e) => e == TodoError::ParseError && parsed_item(id@, text@).is_none(),
            },
    {
        let mut parts = split_fields(text);
        if parts.len() != 4 {
            return Err(TodoError::ParseError);
        }
        let ghost all = texts(parts@);
        proof {
            assert(forall|i: int| 0 <= i < 4 ==> all[i] == (#[trigger] parts@[i])@);
        }
        let estimate = parts.pop().unwrap();
        let project = parts.pop().unwrap();
        let tag = parts.pop().unwrap();
        let title = parts.pop().unwrap();
        match read_count(estimate.as_str()) {
            Some(estimate_count) => Ok(
                TodoItem {
                    id,
                    title,
                    tag,
                    project,
                    estimate_count,
                    executed_count: 0,
                    finished: false,
                    detail: String::new(),
                },
            ),
            None => Err(TodoError::ParseError),
        }
    }

    /// Reads `text` as `title tag project estimate` and makes a task with
    /// a newly generated id out of it.
    pub fn from_str(text: &str) -> (res: Result<TodoItem, TodoError>)
        ensures
            match res {
                Ok(item) => is_generated_id(item.id@) && parsed_item(item.id@, text@) == Some(
                    item@,
                ),
                Err(e) => e == TodoError::ParseError && !is_item_text(text@),
            },
    {
        Self::parse_with_id(generate_id(), text)
    }
}

impl std::str::FromStr for TodoItem {
    type Err = TodoError;

    fn from_str(text: &str) -> (res: Result<Self, TodoError>)
        ensures
            match res {
                Ok(item) => is_generated_id(item.id@) && parsed_item(item.id@, text@) == Some(
                    item@,
                ),
                Err(e) => e == TodoError::ParseError && !is_item_text(text@),
            },
    {
        TodoItem::from_str(text)
    }
}

/// The values of a sequence of tasks.
pub open spec fn item_views(items: Seq<TodoItem>) -> Seq<TodoItemView> {
    Seq::new(items.len(), |i: int| items[i]@)
}

/// The ids of a sequence of tasks, in order.
pub open spec fn ids_of(items: Seq<TodoItemView>) -> Seq<Seq<char>> {
    Seq::new(items.len(), |i: int| items[i].id)
}

/// Whether no two tasks of the sequence share an id.
pub open spec fn distinct_ids(items: Seq<TodoItemView>) -> bool {
    forall|i: int, j: int|
        0 <= i < items.len() && 0 <= j < items.len() && i != j ==> items[i].id != items[j].id
}

/// The registry that holds exactly the tasks of `items`, each under its id.
/// Meant for sequences with distinct ids.
pub open spec fn registry_of(items: Seq<TodoItemView>) -> Map<Seq<char>, TodoItemView>
    recommends
        distinct_ids(items),
{
    Map::new(
        |id: Seq<char>| ids_of(items).contains(id),
        |id: Seq<char>| items[ids_of(items).index_of(id)],
    )
}

/// The tasks of `registry` that are finished.
pub open spec fn finished_part(registry: Map<Seq<char>, TodoItemView>) -> Map<
    Seq<char>,
    TodoItemView,
> {
    Map::new(
        |id: Seq<char>| registry.contains_key(id) && registry[id].finished,
        |id: Seq<char>| registry[id],
    )
}

/// The tasks of `registry` that are not finished.
pub open spec fn unfinished_part(registry: Map<Seq<char>, TodoItemView>) -> Map<
    Seq<char>,
    TodoItemView,
> {
    Map::new(
        |id: Seq<char>| registry.contains_key(id) && !registry[id].finished,
        |id: Seq<char>| registry[id],
    )
}

/// Every task of a registry is either finished or not: the two parts share
/// no id, together they hold what the registry holds, and their sizes add
/// up to its size.
pub proof fn lemma_parts_split(registry: Map<Seq<char>, TodoItemView>)
    requires
        registry.dom().finite(),
    ensures
        finished_part(registry).dom().disjoint(unfinished_part(registry).dom()),
        finished_part(registry).union_prefer_right(unfinished_part(registry)) == registry,
        finished_part(registry).dom().finite(),
        unfinished_part(registry).dom().finite(),
        finished_part(registry).len() + unfinished_part(registry).len() == registry.len(),
{
    let done = finished_part(registry);
    let open = unfinished_part(registry);
    assert(done.union_prefer_right(open) =~= registry);
    assert(done.dom().union(open.dom()) =~= registry.dom());
    vstd::set_lib::lemma_len_subset(done.dom(), registry.dom());
    vstd::set_lib::lemma_len_subset(open.dom(), registry.dom());
    vstd::set_lib::lemma_set_disjoint_lens(done.dom(), open.dom());
}

/// In a sequence with distinct ids every task is found under its own id,
/// and the registry holds no other id.
pub proof fn lemma_registry_of(items: Seq<TodoItemView>)
    requires
        distinct_ids(items),
    ensures
        forall|i: int|
            0 <= i < items.len() ==> registry_of(items).contains_key(#[trigger] items[i].id)
                && registry_of(items)[items[i].id] == items[i],
        forall|id: Seq<char>| #[trigger]
            registry_of(items).contains_key(id) ==> exists|i: int|
                0 <= i < items.len() && items[i].id == id,
        registry_of(items).dom().finite(),
        registry_of(items).len() == items.len(),
{
    let ids = ids_of(items);
    assert forall|i: int| 0 <= i < items.len() implies registry_of(items).contains_key(
        #[trigger] items[i].id,
    ) && registry_of(items)[items[i].id] == items[i] by {
        assert(ids[i] == items[i].id);
        let j = ids.index_of(items[i].id);
        assert(0 <= j < ids.len() && ids[j] == items[i].id);
        assert(items[j].id == items[i].id);
    }
    assert forall|id: Seq<char>| #[trigger] registry_of(items).contains_key(id) implies exists|
        i: int,
    |
        0 <= i < items.len() && items[i].id == id by {
        let j = ids.index_of(id);
        assert(0 <= j < ids.len() && ids[j] == id);
        assert(items[j].id == id);
    }
    assert(registry_of(items).dom() =~= ids.to_set());
    vstd::seq_lib::seq_to_set_is_finite(ids);
    assert(ids.no_duplicates()) by {
        assert forall|i: int, j: int|
            0 <= i < ids.len() && 0 <= j < ids.len() && i != j implies ids[i] != ids[j] by {
            assert(ids[i] == items[i].id && ids[j] == items[j].id);
        }
    }
    ids.unique_seq_to_set();
}

/// Adding a task with a new id to the sequence adds it to the registry.
pub proof fn lemma_registry_push(items: Seq<TodoItemView>, item: TodoItemView)
    requires
        distinct_ids(items),
        !registry_of(items).contains_key(item.id),
    ensures
        distinct_ids(items.push(item)),
        registry_of(items.push(item)) == registry_of(items).insert(item.id, item),
{
    let more = items.push(item);
    lemma_registry_of(items);
    assert(distinct_ids(more)) by {
        assert forall|i: int, j: int|
            0 <= i < more.len() && 0 <= j < more.len() && i != j implies more[i].id
            != more[j].id by {
            if i < items.len() {
                assert(registry_of(items).contains_key(items[i].id));
            }
            if j < items.len() {
                assert(registry_of(items).contains_key(items[j].id));
            }
        }
    }
    lemma_registry_of(more);
    let left = registry_of(more);
    let right = registry_of(items).insert(item.id, item);
    assert forall|id: Seq<char>| left.contains_key(id) <==> right.contains_key(id) by {
        if left.contains_key(id) {
            let i = choose|i: int| 0 <= i < more.len() && more[i].id == id;
            if i < items.len() {
                assert(registry_of(items).contains_key(items[i].id));
            }
        }
        if right.contains_key(id) {
            if id == item.id {
                assert(more[items.len() as int].id == id);
            } else {
                let i = choose|i: int| 0 <= i < items.len() && items[i].id == id;
                assert(more[i].id == id);
            }
        }
    }
    assert forall|id: Seq<char>| left.contains_key(id) implies left[id] == right[id] by {
        let i = choose|i: int| 0 <= i < more.len() && more[i].id == id;
        assert(left[more[i].id] == more[i]);
        if i < items.len() {
            assert(registry_of(items)[items[i].id] == items[i]);
        }
    }
    assert(left =~= right);
}

/// Replacing a task of the sequence by one with the same id replaces it in
/// the registry.
pub proof fn lemma_registry_update(items: Seq<TodoItemView>, at: int, item: TodoItemView)
    requires
        distinct_ids(items),
        0 <= at < items.len(),
        items[at].id == item.id,
    ensures
        distinct_ids(items.update(at, item)),
        registry_of(items.update(at, item)) == registry_of(items).insert(item.id, item),
{
    let changed = items.update(at, item);
    lemma_registry_of(items);
    assert(distinct_ids(changed)) by {
        assert forall|i: int, j: int|
            0 <= i < changed.len() && 0 <= j < changed.len() && i != j implies changed[i].id
            != changed[j].id by {
            assert(changed[i].id == items[i].id);
            assert(changed[j].id == items[j].id);
        }
    }
    lemma_registry_of(changed);
    let left = registry_of(changed);
    let right = registry_of(items).insert(item.id, item);
    assert forall|id: Seq<char>| left.contains_key(id) <==> right.contains_key(id) by {
        if left.contains_key(id) {
            let i = choose|i: int| 0 <= i < changed.len() && changed[i].id == id;
            assert(items[i].id == id);
            assert(registry_of(items).contains_key(items[i].id));
        }
        if right.contains_key(id) && id != item.id {
            let i = choose|i: int| 0 <= i < items.len() && items[i].id == id;
            assert(changed[i].id == id);
        }
        if id == item.id {
            assert(changed[at].id == id);
        }
    }
    assert forall|id: Seq<char>| left.contains_key(id) implies left[id] == right[id] by {
        let i = choose|i: int| 0 <= i < changed.len() && changed[i].id == id;
        assert(left[changed[i].id] == changed[i]);
        if i != at {
            assert(registry_of(items)[items[i].id] == items[i]);
        }
    }
    assert(left =~= right);
}

/// Taking a task out of the sequence takes its id out of the registry.
pub proof fn lemma_registry_remove(items: Seq<TodoItemView>, at: int)
    requires
        distinct_ids(items),
        0 <= at < items.len(),
    ensures
        distinct_ids(items.remove(at)),
        registry_of(items.remove(at)) == registry_of(items).remove(items[at].id),
{
    let fewer = items.remove(at);
    lemma_registry_of(items);
    assert(distinct_ids(fewer)) by {
        assert forall|i: int, j: int|
            0 <= i < fewer.len() && 0 <= j < fewer.len() && i != j implies fewer[i].id
            != fewer[j].id by {
            let i0 = if i < at { i } else { i + 1 };
            let j0 = if j < at { j } else { j + 1 };
            assert(fewer[i] == items[i0]);
            assert(fewer[j] == items[j0]);
        }
    }
    lemma_registry_of(fewer);
    let left = registry_of(fewer);
    let right = registry_of(items).remove(items[at].id);
    assert forall|id: Seq<char>| left.contains_key(id) <==> right.contains_key(id) by {
        if left.contains_key(id) {
            let i = choose|i: int| 0 <= i < fewer.len() && fewer[i].id == id;
            let i0 = if i < at { i } else { i + 1 };
            assert(fewer[i] == items[i0]);
            assert(registry_of(items).contains_key(items[i0].id));
        }
        if right.contains_key(id) {
            let i = choose|i: int| 0 <= i < items.len() && items[i].id == id;
            let i1 = if i < at { i } else { i - 1 };
            assert(fewer[i1] == items[i]);
        }
    }
    assert forall|id: Seq<char>| left.contains_key(id) implies left[id] == right[id] by {
        let i = choose|i: int| 0 <= i < fewer.len() && fewer[i].id == id;
        let i0 = if i < at { i } else { i + 1 };
        assert(fewer[i] == items[i0]);
        assert(left[fewer[i].id] == fewer[i]);
        assert(registry_of(items)[items[i0].id] == items[i0]);
    }
    assert(left =~= right);
}

/// The registry of tasks, each under its own id.
#[derive(Debug)]
pub struct TodoList {
    todo_list: Vec<TodoItem>,
}

impl View for TodoList {
    type V = Map<Seq<char>, TodoItemView>;

    closed spec fn view(&self) -> Map<Seq<char>, TodoItemView> {
        registry_of(item_views(self.todo_list@))
    }
}

impl TodoList {
    /// No two registered tasks share an id.
    #[verifier::type_invariant]
    pub closed spec fn well_formed(&self) -> bool {
        distinct_ids(item_views(self.todo_list@))
    }

    /// Where the task with this id stands, if it is registered.
    fn position(&self, id: &String) -> (found: Option<usize>)
        ensures
            match found {
                Some(at) => at < self.todo_list.len() && self.todo_list[at as int].id@ == id@,
                None => forall|i: int|
                    0 <= i < self.todo_list.len() ==> self.todo_list[i].id@ != id@,
            },
            found.is_some() <==> self@.contains_key(id@),
    {
        proof {
            use_type_invariant(self);
            lemma_registry_of(item_views(self.todo_list@));
        }
        let mut i: usize = 0;
        while i < self.todo_list.len()
            invariant
                i <= self.todo_list.len(),
                distinct_ids(item_views(self.todo_list@)),
                forall|k: int| 0 <= k < i ==> self.todo_list[k].id@ != id@,
            decreases self.todo_list.len() - i,
        {
            if self.todo_list[i].id == *id {
                proof {
                    lemma_registry_of(item_views(self.todo_list@));
                    assert(item_views(self.todo_list@)[i as int].id == id@);
                }
                return Some(i);
            }
            i += 1;
        }
        proof {
            if self@.contains_key(id@) {
                let k = choose|k: int|
                    0 <= k < self.todo_list.len() && item_views(self.todo_list@)[k].id == id@;
                assert(self.todo_list[k].id@ == id@);
            }
        }
        None
    }

    /// Hands out the stored tasks and leaves none behind, until the caller
    /// stores a sequence again.
    fn take_items(&mut self) -> (items: Vec<TodoItem>)
        ensures
            items@ == old(self).todo_list@,
            final(self).todo_list@.len() == 0,
    {
        let mut items: Vec<TodoItem> = Vec::new();
        std::mem::swap(&mut self.todo_list, &mut items);
        items
    }

    /// An empty registry.
    pub fn new() -> (list: Self)
        ensures
            list@ == Map::<Seq<char>, TodoItemView>::empty(),
    {
        let list = TodoList { todo_list: Vec::new() };
        proof {
            lemma_registry_of(item_views(list.todo_list@));
            assert(list@ =~= Map::<Seq<char>, TodoItemView>::empty());
        }
        list
    }

    /// Registers `todo` unless its id is taken.
    pub fn add_todo(&mut self, todo: TodoItem) -> (res: Result<(), TodoError>)
        ensures
            old(self)@.contains_key(todo.id@) ==> res == Err::<(), TodoError>(
                TodoError::DuplicateId,
            ) && final(self)@ == old(self)@,
            !old(self)@.contains_key(todo.id@) ==> res.is_ok() && final(self)@ == old(self)@.insert(
                todo.id@,
                todo@,
            ),
    {
        proof {
            use_type_invariant(&*self);
        }
        match self.position(&todo.id) {
            Some(_) => Err(TodoError::DuplicateId),
            None => {
                let mut items = self.take_items();
                proof {
                    lemma_registry_push(item_views(items@), todo@);
                    assert(item_views(items@.push(todo)) == item_views(items@).push(todo@));
                }
                items.push(todo);
                self.todo_list = items;
                Ok(())
            },
        }
    }

    /// Takes the task with the id of `todo` out of the registry.
    pub fn delete_todo(&mut self, todo: &TodoItem) -> (res: Result<(), TodoError>)
        ensures
            old(self)@.contains_key(todo.id@) ==> res.is_ok() && final(self)@ == old(self)@.remove(
                todo.id@,
            ),
            !old(self)@.contains_key(todo.id@) ==> res == Err::<(), TodoError>(
                TodoError::NotFound,
            ) && final(self)@ == old(self)@,
    {
        proof {
            use_type_invariant(&*self);
        }
        match self.position(&todo.id) {
            Some(at) => {
                let mut items = self.take_items();
                proof {
                    lemma_registry_remove(item_views(items@), at as int);
                    assert(item_views(items@.remove(at as int)) == item_views(items@).remove(
                        at as int,
                    ));
                }
                let _ = items.remove(at);
                self.todo_list = items;
                Ok(())
            },
            None => Err(TodoError::NotFound),
        }
    }

    /// Registers `todo` under its id, in place of the task that had the id
    /// before, if there was one. Always succeeds.
    pub fn insert_todo(&mut self, todo: TodoItem) -> (res: Result<(), TodoError>)
        ensures
            res.is_ok(),
            final(self)@ == old(self)@.insert(todo.id@, todo@),
    {
        proof {
            use_type_invariant(&*self);
        }
        let found = self.position(&todo.id);
        let mut items = self.take_items();
        match found {
            Some(at) => {
                proof {
                    lemma_registry_update(item_views(items@), at as int, todo@);
                    assert(item_views(items@.update(at as int, todo)) == item_views(
                        items@,
                    ).update(at as int, todo@));
                }
                items.set(at, todo);
            },
            None => {
                proof {
                    lemma_registry_push(item_views(items@), todo@);
                    assert(item_views(items@.push(todo)) == item_views(items@).push(todo@));
                }
                items.push(todo);
            },
        }
        self.todo_list = items;
        Ok(())
    }

    /// A copy of every registered task. The order tells nothing.
    pub fn get_vec_of_todo(&self) -> (todos: Vec<TodoItem>)
        ensures
            distinct_ids(item_views(todos@)),
            registry_of(item_views(todos@)) == self@,
            todos.len() == self@.len(),
    {
        proof {
            use_type_invariant(self);
            lemma_registry_of(item_views(self.todo_list@));
        }
        let mut todos: Vec<TodoItem> = Vec::new();
        let mut i: usize = 0;
        while i < self.todo_list.len()
            invariant
                i <= self.todo_list.len(),
                item_views(todos@) == item_views(self.todo_list@).take(i as int),
            decreases self.todo_list.len() - i,
        {
            let copy = self.todo_list[i].clone();
            proof {
                let stored = item_views(self.todo_list@);
                assert(copy@ == stored[i as int]);
                assert(item_views(todos@.push(copy)) == item_views(todos@).push(copy@));
                assert(stored.take(i + 1) == stored.take(i as int).push(stored[i as int]));
            }
            todos.push(copy);
            i += 1;
        }
        proof {
            assert(item_views(self.todo_list@).take(i as int) == item_views(self.todo_list@));
        }
        todos
    }

    /// Takes every finished task out of the registry and hands them over.
    pub fn drain_finished_todo(&mut self) -> (drained: Vec<TodoItem>)
        ensures
            final(self)@ == unfinished_part(old(self)@),
            distinct_ids(item_views(drained@)),
            registry_of(item_views(drained@)) == finished_part(old(self)@),
            drained.len() == finished_part(old(self)@).len(),
    {
        broadcast use vstd::std_specs::vec::group_vec_axioms;

        proof {
            use_type_invariant(&*self);
        }
        let items = self.take_items();
        let ghost all = item_views(items@);
        let ghost taken = items@;
        let mut kept: Vec<TodoItem> = Vec::new();
        let mut drained: Vec<TodoItem> = Vec::new();
        proof {
            lemma_registry_of(Seq::<TodoItemView>::empty());
            assert(all.take(0) == Seq::<TodoItemView>::empty());
            assert(item_views(kept@) == Seq::<TodoItemView>::empty());
            assert(item_views(drained@) == Seq::<TodoItemView>::empty());
            assert(registry_of(Seq::<TodoItemView>::empty()) == unfinished_part(
                registry_of(Seq::<TodoItemView>::empty()),
            ));
            assert(registry_of(Seq::<TodoItemView>::empty()) == finished_part(
                registry_of(Seq::<TodoItemView>::empty()),
            ));
        }
        for item in walk: items
            invariant
                walk.seq() == taken,
                all == item_views(taken),
                distinct_ids(all),
                distinct_ids(item_views(kept@)),
                distinct_ids(item_views(drained@)),
                registry_of(item_views(kept@)) == unfinished_part(
                    registry_of(all.take(walk.index())),
                ),
                registry_of(item_views(drained@)) == finished_part(
                    registry_of(all.take(walk.index())),
                ),
        {
            proof {
                let seen = all.take(walk.index());
                let next = all.take(walk.index() + 1);
                assert(next == seen.push(item@));
                assert(distinct_ids(seen));
                lemma_registry_of(seen);
                assert(!registry_of(seen).contains_key(item@.id)) by {
                    if registry_of(seen).contains_key(item@.id) {
                        let k = choose|k: int| 0 <= k < seen.len() && seen[k].id == item@.id;
                        assert(all[k].id == all[walk.index()].id);
                    }
                }
                lemma_registry_push(seen, item@);
                if item.finished {
                    lemma_registry_push(item_views(drained@), item@);
                    assert(item_views(drained@.push(item)) == item_views(drained@).push(item@));
                    assert(finished_part(registry_of(next)) == finished_part(
                        registry_of(seen),
                    ).insert(item@.id, item@));
                    assert(unfinished_part(registry_of(next)) == unfinished_part(
                        registry_of(seen),
                    ));
                } else {
                    lemma_registry_push(item_views(kept@), item@);
                    assert(item_views(kept@.push(item)) == item_views(kept@).push(item@));
                    assert(unfinished_part(registry_of(next)) == unfinished_part(
                        registry_of(seen),
                    ).insert(item@.id, item@));
                    assert(finished_part(registry_of(next)) == finished_part(
                        registry_of(seen),
                    ));
                }
            }
            if item.finished {
                drained.push(item);
            } else {
                kept.push(item);
            }
        }
        proof {
            assert(all.take(all.len() as int) == all);
            lemma_registry_of(item_views(drained@));
        }
        self.todo_list = kept;
        drained
    }
}

impl Default for TodoList {
    fn default() -> (list: Self)
        ensures
            list@ == Map::<Seq<char>, TodoItemView>::empty(),
    {
        Self::new()
    }
}

/// Where the timer stands in the Pomodoro cycle, with the work counter.
#[derive(Clone, Copy, Debug, PartialEq, Eq, Structural)]
pub enum State {
    WORK(usize),
    BREAK(usize),
    LUNCH(usize),
}

/// The mathematical value of a `State`: the same three phases over
/// unbounded counters.
pub enum StateView {
    Work(nat),
    Break(nat),
    Lunch(nat),
}

impl View for State {
    type V = StateView;

    open spec fn view(&self) -> StateView {
        match *self {
            State::WORK(n) => StateView::Work(n as nat),
            State::BREAK(n) => StateView::Break(n as nat),
            State::LUNCH(n) => StateView::Lunch(n as nat),
        }
    }
}

impl StateView {
    /// The phase that follows this one: the fourth work period is followed
    /// by lunch, any other by a break; work follows a break with the
    /// counter raised, and lunch with the counter back at one.
    pub open spec fn next(self) -> StateView {
        match self {
            StateView::Work(n) => if n == 4 {
                StateView::Lunch(n)
            } else {
                StateView::Break(n)
            },
            StateView::Lunch(_) => StateView::Work(1),
            StateView::Break(n) => StateView::Work(n + 1),
        }
    }

    /// The phase that precedes this one. `Work(0)` has none.
    pub open spec fn prev(self) -> StateView
        recommends
            self != StateView::Work(0),
    {
        match self {
            StateView::Work(n) => if n == 1 {
                StateView::Lunch(4)
            } else {
                StateView::Break((n - 1) as nat)
            },
            StateView::Lunch(_) => StateView::Work(4),
            StateView::Break(n) => StateView::Work(n),
        }
    }

    /// Whether this is one of the eight phases that the cycle goes through
    /// when it starts at `Work(1)`.
    pub open spec fn in_cycle(self) -> bool {
        match self {
            StateView::Work(n) => 1 <= n <= 4,
            StateView::Break(n) => 1 <= n <= 3,
            StateView::Lunch(n) => n == 4,
        }
    }

    /// Minutes that a phase lasts.
    pub open spec fn limit_minutes(self) -> nat {
        match self {
            StateView::Work(_) => 25,
            StateView::Break(_) => 5,
            StateView::Lunch(_) => 30,
        }
    }

    /// The name shown for a phase.
    pub open spec fn name(self) -> Seq<char> {
        match self {
            StateView::Work(n) => "WORK_"@ + decimal(n),
            StateView::Break(_) => "BREAK"@,
            StateView::Lunch(_) => "LUNCH"@,
        }
    }

    /// Going on by one phase and back again changes nothing. Left out are
    /// the phases on which that fails: a lunch with a counter other than
    /// four, and `Break(0)`.
    pub proof fn lemma_prev_undoes_next(self)
        requires
            self matches StateView::Lunch(n) ==> n == 4,
            self != StateView::Break(0),
        ensures
            self.next().prev() == self,
    {
    }

    /// Going back by one phase and on again changes nothing. Left out are
    /// `Work(0)`, which has no phase before it, and the phases on which it
    /// fails: a lunch with a counter other than four, and `Break(4)`.
    pub proof fn lemma_next_undoes_prev(self)
        requires
            self != StateView::Work(0),
            self matches StateView::Lunch(n) ==> n == 4,
            self != StateView::Break(4),
        ensures
            self.prev().next() == self,
    {
    }

    /// The phase that is reached by going on `steps` times.
    pub open spec fn next_times(self, steps: nat) -> StateView
        decreases steps,
    {
        if steps == 0 {
            self
        } else {
            self.next_times((steps - 1) as nat).next()
        }
    }

    /// The cycle has eight phases: from one of them, going on eight times
    /// leads back to it, and going on fewer times leads elsewhere.
    pub proof fn lemma_cycle_of_eight(self, steps: nat)
        requires
            self.in_cycle(),
        ensures
            self.next_times(8) == self,
            0 < steps < 8 ==> self.next_times(steps) != self,
            self.next_times(steps).in_cycle(),
        decreases steps,
    {
        reveal_with_fuel(StateView::next_times, 9);
        if steps >= 8 {
            self.lemma_cycle_of_eight((steps - 1) as nat);
        }
    }

    /// The cycle is closed: from one of its phases, both directions lead
    /// to one of its phases, and going there and back changes nothing.
    pub proof fn lemma_cycle_closed(self)
        requires
            self.in_cycle(),
        ensures
            self.next().in_cycle(),
            self.prev().in_cycle(),
            self.next().prev() == self,
            self.prev().next() == self,
    {
    }
}

impl State {
    /// The phase that follows `state_now`.
    pub fn get_next_state(state_now: &Self) -> (next: State)
        requires
            state_now matches State::BREAK(n) ==> n < usize::MAX,
        ensures
            next@ == state_now@.next(),
    {
        match state_now {
            State::WORK(work_count) => if *work_count == 4 {
                State::LUNCH(*work_count)
            } else {
                State::BREAK(*work_count)
            },
            State::LUNCH(_) => State::WORK(1),
            State::BREAK(work_count) => State::WORK(*work_count + 1),
        }
    }

    /// The phase that precedes `state_now`.
    pub fn get_prev_state(state_now: &Self) -> (prev: State)
        requires
            *state_now != State::WORK(0),
        ensures
            prev@ == state_now@.prev(),
    {
        match state_now {
            State::WORK(work_count) => if *work_count == 1 {
                State::LUNCH(4)
            } else {
                State::BREAK(*work_count - 1)
            },
            State::LUNCH(_) => State::WORK(4),
            State::BREAK(work_count) => State::WORK(*work_count),
        }
    }

    /// The name shown for `state`: `WORK_` and the counter, `BREAK` or
    /// `LUNCH`.
    pub fn get_state_name(state: &Self) -> (name: String)
        ensures
            name@ == state@.name(),
    {
        match state {
            State::WORK(work_count) => {
                let mut name = "WORK_".to_owned();
                push_decimal(&mut name, *work_count);
                name
            },
            State::BREAK(_) => "BREAK".to_owned(),
            State::LUNCH(_) => "LUNCH".to_owned(),
        }
    }

    /// Seconds that `state` lasts when a unit of session time has `unit`
    /// seconds; nothing if that is more than a `usize` holds.
    pub fn get_limit_time_in(state: &Self, unit: usize) -> (seconds: Option<usize>)
        ensures
            match seconds {
                Some(seconds) => seconds == state@.limit_minutes() * unit,
                None => state@.limit_minutes() * unit > usize::MAX,
            },
    {
        let units: usize = match state {
            State::WORK(_) => 25,
            State::BREAK(_) => 5,
            State::LUNCH(_) => 30,
        };
        units.checked_mul(unit)
    }

    /// Seconds that `state` lasts, with `ONE_MINUTE` seconds to the unit of
    /// session time.
    pub fn get_limit_time(state: &Self) -> (seconds: usize)
        ensures
            seconds == state@.limit_minutes() * ONE_MINUTE,
    {
        match state {
            State::WORK(_) => 25 * ONE_MINUTE,
            State::BREAK(_) => 5 * ONE_MINUTE,
            State::LUNCH(_) => 30 * ONE_MINUTE,
        }
    }
}

} // verus!
