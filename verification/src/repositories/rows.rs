//! From the flat rows of a join query to nested items.
//!
//! A query that joins items with their labels answers with one row per item
//! and label, and with one row without a label for an item that has none.
//! Folding gathers the rows of each item into one entity.

use vstd::prelude::*;
use crate::repositories::RepositoryError;
use crate::repositories::ErrorView;
use crate::repositories::label::{Label, LabelView};
use crate::repositories::todo::{TodoEntity, TodoView};

verus! {

/// One row of the join of items with labels: the item's own columns, and the
/// id and name of one of its labels, both absent where the item has no label.
#[derive(Debug, PartialEq, Eq)]
pub struct TodoWithLabelFromRow {
    pub id: i32,
    pub text: String,
    pub completed: bool,
    pub label_id: Option<i32>,
    pub label_name: Option<String>,
}

/// A [`TodoWithLabelFromRow`] as contracts speak of it.
pub struct RowView {
    pub id: i32,
    pub text: Seq<char>,
    pub completed: bool,
    pub label_id: Option<i32>,
    pub label_name: Option<Seq<char>>,
}

impl RowView {
    /// The label that the row carries: it carries one where it has a label's
    /// id. A name that is absent beside an id reads as the empty name.
    pub open spec fn label(self) -> Option<LabelView> {
        match self.label_id {
            Some(id) => Some(
                LabelView {
                    id,
                    name: match self.label_name {
                        Some(name) => name,
                        None => Seq::empty(),
                    },
                },
            ),
            None => None,
        }
    }
}

impl View for TodoWithLabelFromRow {
    type V = RowView;

    open spec fn view(&self) -> RowView {
        RowView {
            id: self.id,
            text: self.text@,
            completed: self.completed,
            label_id: self.label_id,
            label_name: match self.label_name {
                Some(name) => Some(name@),
                None => None,
            },
        }
    }
}

impl DeepView for TodoWithLabelFromRow {
    type V = RowView;

    open spec fn deep_view(&self) -> RowView {
        self@
    }
}

impl Clone for TodoWithLabelFromRow {
    fn clone(&self) -> (copy: Self)
        ensures
            copy@ == self@,
    {
        TodoWithLabelFromRow {
            id: self.id,
            text: self.text.clone(),
            completed: self.completed,
            label_id: self.label_id,
            label_name: match &self.label_name {
                Some(name) => Some(name.clone()),
                None => None,
            },
        }
    }
}

/// Some row of `rows` belongs to the item `id`.
pub open spec fn mentions(rows: Seq<RowView>, id: i32) -> bool {
    exists|i: int| 0 <= i < rows.len() && (#[trigger] rows[i]).id == id
}

/// The rows that open an item: each is the first of `rows` with its id.
/// They stand in the order in which they stand in `rows`.
pub open spec fn opening_rows(rows: Seq<RowView>) -> Seq<RowView>
    decreases rows.len(),
{
    if rows.len() == 0 {
        Seq::empty()
    } else if mentions(rows.drop_last(), rows.last().id) {
        opening_rows(rows.drop_last())
    } else {
        opening_rows(rows.drop_last()).push(rows.last())
    }
}

/// The labels that the rows of the item `id` carry, in the order of the rows.
pub open spec fn labels_of(rows: Seq<RowView>, id: i32) -> Seq<LabelView> {
    rows.filter_map(
        |row: RowView|
            if row.id == id {
                row.label()
            } else {
                None
            },
    )
}

/// The item that `rows` describe under the id of `opening`: its text and
/// state are those of `opening`, its labels those of all rows with that id.
pub open spec fn item_of(rows: Seq<RowView>, opening: RowView) -> TodoView {
    TodoView {
        id: opening.id,
        text: opening.text,
        completed: opening.completed,
        labels: labels_of(rows, opening.id),
    }
}

/// What `rows` fold to: one item for each id, in the order in which the ids
/// first appear, each with the labels of all its rows.
pub open spec fn folded(rows: Seq<RowView>) -> Seq<TodoView> {
    opening_rows(rows).map_values(|opening: RowView| item_of(rows, opening))
}

/// The labels of a row that opens an item.
pub open spec fn own_labels(row: RowView) -> Seq<LabelView> {
    match row.label() {
        Some(label) => seq![label],
        None => Seq::empty(),
    }
}

/// The item `todo` with `labels` behind the labels it has.
pub open spec fn with_more_labels(todo: TodoView, labels: Seq<LabelView>) -> TodoView {
    TodoView { labels: todo.labels + labels, ..todo }
}

/// The item that a row opens when no earlier row had its id.
pub open spec fn opened_by(row: RowView) -> TodoView {
    TodoView { id: row.id, text: row.text, completed: row.completed, labels: own_labels(row) }
}

/// One more row adds its label to the labels of its own item and to no other.
proof fn lemma_labels_of_push(rows: Seq<RowView>, row: RowView, id: i32)
    ensures
        labels_of(rows.push(row), id) == if row.id == id {
            labels_of(rows, id) + own_labels(row)
        } else {
            labels_of(rows, id)
        },
{
    assert(rows.push(row).drop_last() =~= rows);
}

/// An item that no row mentions has no labels.
proof fn lemma_labels_of_unmentioned(rows: Seq<RowView>, id: i32)
    requires
        !mentions(rows, id),
    ensures
        labels_of(rows, id) == Seq::<LabelView>::empty(),
    decreases rows.len(),
{
    if rows.len() > 0 {
        let earlier = rows.drop_last();
        assert(forall|i: int| 0 <= i < earlier.len() ==> (#[trigger] earlier[i]).id != id);
        lemma_labels_of_unmentioned(earlier, id);
    }
}

/// The opening rows hold each id that the rows mention, once, and no other.
proof fn lemma_opening_rows_ids(rows: Seq<RowView>)
    ensures
        forall|j: int|
            0 <= j < opening_rows(rows).len() ==> mentions(rows, (#[trigger] opening_rows(rows)[j]).id),
        forall|id: i32| #[trigger] mentions(rows, id) ==> mentions(opening_rows(rows), id),
        forall|j: int, k: int|
            0 <= j < k < opening_rows(rows).len() ==> (#[trigger] opening_rows(rows)[j]).id != (
            #[trigger] opening_rows(rows)[k]).id,
    decreases rows.len(),
{
    if rows.len() > 0 {
        let earlier = rows.drop_last();
        let opening = opening_rows(rows);
        lemma_opening_rows_ids(earlier);
        assert forall|j: int| 0 <= j < opening.len() implies mentions(
            rows,
            (#[trigger] opening[j]).id,
        ) by {
            if j < opening_rows(earlier).len() {
                let i = choose|i: int|
                    0 <= i < earlier.len() && (#[trigger] earlier[i]).id == opening[j].id;
                assert(rows[i].id == opening[j].id);
            }
        }
        assert forall|id: i32| #[trigger] mentions(rows, id) implies mentions(opening, id) by {
            let i = choose|i: int| 0 <= i < rows.len() && (#[trigger] rows[i]).id == id;
            if i < earlier.len() {
                assert(earlier[i].id == id);
            }
            if mentions(earlier, id) {
                let j = choose|j: int|
                    0 <= j < opening_rows(earlier).len() && (#[trigger] opening_rows(earlier)[j]).id == id;
                assert(opening[j].id == id);
            } else {
                assert(opening[opening.len() - 1].id == id);
            }
        }
    }
}

/// Folding one more row of an item that the fold already holds at `at`
/// adds the row's label, if it has one, to that item and changes nothing else.
pub proof fn lemma_folded_push_known(rows: Seq<RowView>, row: RowView, at: int)
    requires
        0 <= at < folded(rows).len(),
        folded(rows)[at].id == row.id,
    ensures
        folded(rows.push(row)) == folded(rows).update(
            at,
            with_more_labels(folded(rows)[at], own_labels(row)),
        ),
{
    let more = rows.push(row);
    let opening = opening_rows(rows);
    lemma_opening_rows_ids(rows);
    assert(more.drop_last() =~= rows);
    let expected = folded(rows).update(at, with_more_labels(folded(rows)[at], own_labels(row)));
    assert forall|k: int| 0 <= k < opening.len() implies folded(more)[k] == expected[k] by {
        lemma_labels_of_push(rows, row, opening[k].id);
    }
}

/// Folding one more row whose id the fold does not hold yet appends the
/// item that the row opens.
pub proof fn lemma_folded_push_new(rows: Seq<RowView>, row: RowView)
    requires
        forall|j: int| 0 <= j < folded(rows).len() ==> (#[trigger] folded(rows)[j]).id != row.id,
    ensures
        folded(rows.push(row)) == folded(rows).push(opened_by(row)),
{
    let more = rows.push(row);
    let opening = opening_rows(rows);
    lemma_opening_rows_ids(rows);
    assert(more.drop_last() =~= rows);
    if mentions(rows, row.id) {
        let j = choose|j: int| 0 <= j < opening.len() && (#[trigger] opening[j]).id == row.id;
        assert(folded(rows)[j].id == row.id);
    }
    let expected = folded(rows).push(opened_by(row));
    assert forall|k: int| 0 <= k < opening.len() + 1 implies folded(more)[k] == expected[k] by {
        if k < opening.len() {
            lemma_labels_of_push(rows, row, opening[k].id);
        } else {
            lemma_labels_of_push(rows, row, row.id);
            lemma_labels_of_unmentioned(rows, row.id);
        }
    }
}

/// The row at `at` is the first of `rows` with its id.
pub open spec fn opens_item(rows: Seq<RowView>, at: int) -> bool {
    &&& 0 <= at < rows.len()
    &&& forall|k: int| 0 <= k < at ==> (#[trigger] rows[k]).id != rows[at].id
}

/// The place in the fold of the item that the row at `at` opens: as many
/// items stand before it as there are ids among the rows before `at`.
pub open spec fn place_of(rows: Seq<RowView>, at: int) -> int {
    opening_rows(rows.take(at)).len() as int
}

/// Rows of one item agree on its text and its state.
pub open spec fn consistent(rows: Seq<RowView>) -> bool {
    forall|i: int, j: int|
        0 <= i < rows.len() && 0 <= j < rows.len() && (#[trigger] rows[i]).id == (
        #[trigger] rows[j]).id ==> rows[i].text == rows[j].text && rows[i].completed
            == rows[j].completed
}

/// The opening rows of the first `n` rows are the first opening rows of all rows.
proof fn lemma_opening_rows_prefix(rows: Seq<RowView>, n: int)
    requires
        0 <= n <= rows.len(),
    ensures
        opening_rows(rows.take(n)).len() <= opening_rows(rows).len(),
        forall|j: int|
            0 <= j < opening_rows(rows.take(n)).len() ==> #[trigger] opening_rows(rows.take(n))[j]
                == opening_rows(rows)[j],
    decreases rows.len(),
{
    if n == rows.len() {
        assert(rows.take(n) =~= rows);
    } else {
        let earlier = rows.drop_last();
        assert(earlier.take(n) =~= rows.take(n));
        lemma_opening_rows_prefix(earlier, n);
    }
}

/// The fold holds the item that a row opens, at the place of that row, with
/// the text and the state of the row and the labels of all rows of the item.
pub proof fn lemma_folded_holds_item(rows: Seq<RowView>, at: int)
    requires
        opens_item(rows, at),
    ensures
        0 <= place_of(rows, at) < folded(rows).len(),
        folded(rows)[place_of(rows, at)] == item_of(rows, rows[at]),
{
    let upto = rows.take(at + 1);
    assert(upto.drop_last() =~= rows.take(at));
    if mentions(rows.take(at), rows[at].id) {
        let k = choose|k: int|
            0 <= k < rows.take(at).len() && (#[trigger] rows.take(at)[k]).id == rows[at].id;
        assert(rows[k].id == rows[at].id);
    }
    lemma_opening_rows_prefix(rows, at + 1);
    assert(opening_rows(upto)[place_of(rows, at)] == rows[at]);
}

/// Items stand in the fold in the order in which their first rows stand
/// among the rows.
pub proof fn lemma_places_in_order(rows: Seq<RowView>, first: int, second: int)
    requires
        opens_item(rows, first),
        opens_item(rows, second),
        first < second,
    ensures
        place_of(rows, first) < place_of(rows, second),
{
    let upto = rows.take(second);
    assert(upto.take(first) =~= rows.take(first));
    assert(forall|k: int| 0 <= k < first ==> (#[trigger] upto[k]).id != upto[first].id);
    lemma_folded_holds_item(upto, first);
}

/// Each item of the fold is opened by a row: by the first row with its id.
pub proof fn lemma_folded_item_origin(rows: Seq<RowView>, place: int) -> (at: int)
    requires
        0 <= place < folded(rows).len(),
    ensures
        opens_item(rows, at),
        place_of(rows, at) == place,
        folded(rows)[place] == item_of(rows, rows[at]),
    decreases rows.len(),
{
    let earlier = rows.drop_last();
    let last = rows.len() - 1;
    if place < opening_rows(earlier).len() {
        let at = lemma_folded_item_origin(earlier, place);
        assert(earlier.take(at) =~= rows.take(at));
        assert(opens_item(rows, at)) by {
            assert forall|k: int| 0 <= k < at implies (#[trigger] rows[k]).id != rows[at].id by {
                assert(earlier[k].id != earlier[at].id);
            }
        }
        lemma_folded_holds_item(rows, at);
        at
    } else {
        assert(opens_item(rows, last)) by {
            assert forall|k: int| 0 <= k < last implies (#[trigger] rows[k]).id != rows[last].id by {
                assert(earlier[k].id == rows[k].id);
            }
        }
        lemma_folded_holds_item(rows, last);
        last
    }
}

/// The fold holds one item for each id that the rows mention, and no other.
pub proof fn lemma_folded_ids(rows: Seq<RowView>)
    ensures
        forall|id: i32|
            mentions(rows, id) <==> exists|place: int|
                0 <= place < folded(rows).len() && (#[trigger] folded(rows)[place]).id == id,
        forall|j: int, k: int|
            0 <= j < k < folded(rows).len() ==> (#[trigger] folded(rows)[j]).id != (
            #[trigger] folded(rows)[k]).id,
{
    lemma_opening_rows_ids(rows);
    let opening = opening_rows(rows);
    assert forall|id: i32| mentions(rows, id) implies exists|place: int|
        0 <= place < folded(rows).len() && (#[trigger] folded(rows)[place]).id == id by {
        let place = choose|place: int| 0 <= place < opening.len() && (#[trigger] opening[place]).id == id;
        assert(folded(rows)[place].id == id);
    }
    assert forall|id: i32|
        (exists|place: int|
            0 <= place < folded(rows).len() && (#[trigger] folded(rows)[place]).id
                == id) implies mentions(rows, id) by {
        let place = choose|place: int|
            0 <= place < folded(rows).len() && (#[trigger] folded(rows)[place]).id == id;
        assert(mentions(rows, opening[place].id));
    }
}

/// Rows that come by falling id fold to items by falling id.
pub proof fn lemma_folded_keeps_falling_ids(rows: Seq<RowView>)
    requires
        forall|i: int, j: int|
            0 <= i < j < rows.len() ==> (#[trigger] rows[i]).id >= (#[trigger] rows[j]).id,
    ensures
        forall|a: int, b: int|
            0 <= a < b < folded(rows).len() ==> (#[trigger] folded(rows)[a]).id > (
            #[trigger] folded(rows)[b]).id,
{
    lemma_folded_ids(rows);
    assert forall|a: int, b: int| 0 <= a < b < folded(rows).len() implies (
    #[trigger] folded(rows)[a]).id > (#[trigger] folded(rows)[b]).id by {
        let first = lemma_folded_item_origin(rows, a);
        let second = lemma_folded_item_origin(rows, b);
        if second < first {
            lemma_places_in_order(rows, second, first);
        }
        assert(rows[first].id >= rows[second].id);
    }
}

/// An item of which one row only is there has the label of that row, and
/// none where the row carries none.
pub proof fn lemma_labels_of_lone_row(rows: Seq<RowView>, at: int)
    requires
        0 <= at < rows.len(),
        forall|k: int| 0 <= k < rows.len() && k != at ==> (#[trigger] rows[k]).id != rows[at].id,
    ensures
        labels_of(rows, rows[at].id) == own_labels(rows[at]),
    decreases rows.len(),
{
    let id = rows[at].id;
    let earlier = rows.drop_last();
    lemma_labels_of_push(earlier, rows.last(), id);
    if at == rows.len() - 1 {
        if mentions(earlier, id) {
            let k = choose|k: int| 0 <= k < earlier.len() && (#[trigger] earlier[k]).id == id;
            assert(rows[k].id == id);
        }
        lemma_labels_of_unmentioned(earlier, id);
    } else {
        assert(forall|k: int|
            0 <= k < earlier.len() && k != at ==> (#[trigger] earlier[k]).id != earlier[at].id);
        lemma_labels_of_lone_row(earlier, at);
    }
}

/// A row without a label that is the only row of its item folds to an item
/// without labels.
pub proof fn lemma_fold_with_no_labels(rows: Seq<RowView>, at: int)
    requires
        0 <= at < rows.len(),
        rows[at].label_id is None,
        forall|k: int| 0 <= k < rows.len() && k != at ==> (#[trigger] rows[k]).id != rows[at].id,
    ensures
        folded(rows).contains(
            TodoView {
                id: rows[at].id,
                text: rows[at].text,
                completed: rows[at].completed,
                labels: Seq::empty(),
            },
        ),
{
    lemma_labels_of_lone_row(rows, at);
    lemma_folded_holds_item(rows, at);
}

/// The order of the rows matters to the fold only through the order of the
/// label rows of each item: where `other` holds the rows of `rows` in another
/// order that keeps, for each item, its labels in their order, both fold to
/// the same items, each with the same labels in the same order. The rows of
/// an item have to agree on its text and state, as the rows of a join do.
pub proof fn lemma_fold_of_reordered_rows(rows: Seq<RowView>, other: Seq<RowView>)
    requires
        rows.to_multiset() == other.to_multiset(),
        consistent(rows),
        forall|id: i32| labels_of(rows, id) == labels_of(other, id),
    ensures
        folded(rows).len() == folded(other).len(),
        forall|todo: TodoView| folded(rows).contains(todo) <==> folded(other).contains(todo),
{
    lemma_same_rows(rows, other);
    lemma_same_rows(other, rows);
    assert(consistent(other)) by {
        assert forall|i: int, j: int|
            0 <= i < other.len() && 0 <= j < other.len() && (#[trigger] other[i]).id == (
            #[trigger] other[j]).id implies other[i].text == other[j].text && other[i].completed
                == other[j].completed by {
            assert(other.contains(other[i]) && other.contains(other[j]));
            let a = choose|a: int| 0 <= a < rows.len() && rows[a] == other[i];
            let b = choose|b: int| 0 <= b < rows.len() && rows[b] == other[j];
            assert(rows[a].id == rows[b].id);
        }
    }
    assert forall|todo: TodoView| folded(rows).contains(todo) implies folded(other).contains(
        todo,
    ) by {
        lemma_folded_item_moves(rows, other, todo);
    }
    assert forall|todo: TodoView| folded(other).contains(todo) implies folded(rows).contains(
        todo,
    ) by {
        lemma_folded_item_moves(other, rows, todo);
    }
    lemma_folded_no_duplicates(rows);
    lemma_folded_no_duplicates(other);
    assert(folded(rows).to_set() =~= folded(other).to_set());
    folded(rows).unique_seq_to_set();
    folded(other).unique_seq_to_set();
}

/// Sequences that hold the same rows as often hold the same rows.
proof fn lemma_same_rows(rows: Seq<RowView>, other: Seq<RowView>)
    requires
        rows.to_multiset() == other.to_multiset(),
    ensures
        forall|row: RowView| rows.contains(row) ==> other.contains(row),
{
    broadcast use vstd::seq_lib::to_multiset_contains;

    assert forall|row: RowView| rows.contains(row) implies other.contains(row) by {
        assert(rows.to_multiset().count(row) > 0);
    }
}

/// No item stands in the fold twice.
proof fn lemma_folded_no_duplicates(rows: Seq<RowView>)
    ensures
        folded(rows).no_duplicates(),
{
    lemma_folded_ids(rows);
    assert forall|j: int, k: int|
        0 <= j < folded(rows).len() && 0 <= k < folded(rows).len() && j != k implies folded(
        rows,
    )[j] != folded(rows)[k] by {
        if j < k {
            assert(folded(rows)[j].id != folded(rows)[k].id);
        } else {
            assert(folded(rows)[k].id != folded(rows)[j].id);
        }
    }
}

/// An item of the fold of `rows` is an item of the fold of `other`, where
/// `other` holds each row of `rows`, agrees with itself on text and state,
/// and gives each item the labels that `rows` give it.
proof fn lemma_folded_item_moves(rows: Seq<RowView>, other: Seq<RowView>, todo: TodoView)
    requires
        folded(rows).contains(todo),
        forall|row: RowView| rows.contains(row) ==> other.contains(row),
        consistent(other),
        forall|id: i32| labels_of(rows, id) == labels_of(other, id),
    ensures
        folded(other).contains(todo),
{
    let place = choose|place: int| 0 <= place < folded(rows).len() && folded(rows)[place] == todo;
    let at = lemma_folded_item_origin(rows, place);
    assert(rows.contains(rows[at]));
    let there = choose|there: int| 0 <= there < other.len() && other[there] == rows[at];
    assert(mentions(other, todo.id));
    lemma_folded_ids(other);
    let moved = choose|moved: int|
        0 <= moved < folded(other).len() && (#[trigger] folded(other)[moved]).id == todo.id;
    let origin = lemma_folded_item_origin(other, moved);
    assert(other[origin].id == other[there].id);
    assert(folded(other)[moved] == todo);
}

/// The label that `row` carries, if it carries one.
fn carried_label(row: &TodoWithLabelFromRow) -> (label: Option<Label>)
    ensures
        label.deep_view() == row@.label(),
{
    match row.label_id {
        Some(id) => {
            let name = match &row.label_name {
                Some(name) => name.clone(),
                None => String::new(),
            };
            Some(Label { id, name })
        },
        None => None,
    }
}

/// Where in `todos` the item `id` stands, if it is there.
fn position_of(todos: &Vec<TodoEntity>, id: i32) -> (found: Option<usize>)
    ensures
        match found {
            Some(at) => at < todos.len() && todos[at as int].id == id,
            None => forall|k: int| 0 <= k < todos.len() ==> (#[trigger] todos[k]).id != id,
        },
{
    let mut at: usize = 0;
    while at < todos.len()
        invariant
            at <= todos.len(),
            forall|k: int| 0 <= k < at ==> (#[trigger] todos[k]).id != id,
        decreases todos.len() - at,
    {
        if todos[at].id == id {
            return Some(at);
        }
        at += 1;
    }
    None
}

/// Folds the rows of a join of items with labels into items.
///
/// The result holds one item for each id among the rows, in the order in
/// which the ids first appear. An item has the text and the state of the
/// first row with its id, and the labels of all rows with its id, in the
/// order of those rows. Rows of one item need not stand together. A row
/// carries a label where it has a label's id; an item of which no row
/// carries one has no labels.
pub fn fold_entities(rows: Vec<TodoWithLabelFromRow>) -> (todos: Vec<TodoEntity>)
    ensures
        todos.deep_view() == folded(rows.deep_view()),
{
    let ghost all = rows.deep_view();
    let mut accum: Vec<TodoEntity> = Vec::new();
    let mut i: usize = 0;
    while i < rows.len()
        invariant
            i <= rows.len(),
            all == rows.deep_view(),
            accum.deep_view() == folded(all.take(i as int)),
        decreases rows.len() - i,
    {
        let row = &rows[i];
        let ghost seen = all.take(i as int);
        let ghost before = accum.deep_view();
        assert(all.take(i + 1) =~= seen.push(row@));
        let label = carried_label(row);
        match position_of(&accum, row.id) {
            Some(at) => {
                if let Some(label) = label {
                    accum[at].labels.push(label);
                }
                proof {
                    lemma_folded_push_known(seen, row@, at as int);
                    assert(accum.deep_view() =~= before.update(
                        at as int,
                        with_more_labels(before[at as int], own_labels(row@)),
                    )) by {
                        assert(accum[at as int]@.labels =~= before[at as int].labels + own_labels(
                            row@,
                        ));
                    }
                }
            },
            None => {
                let labels = match label {
                    Some(label) => vec![label],
                    None => Vec::new(),
                };
                accum.push(
                    TodoEntity { id: row.id, text: row.text.clone(), completed: row.completed, labels },
                );
                proof {
                    assert forall|j: int| 0 <= j < before.len() implies (#[trigger] before[j]).id
                        != row.id by {
                        assert(accum[j].id != row.id);
                    }
                    lemma_folded_push_new(seen, row@);
                    assert(labels.deep_view() =~= own_labels(row@));
                }
            },
        }
        i += 1;
    }
    assert(all.take(rows.len() as int) =~= all);
    accum
}

/// The item that the rows read for the id `id` describe.
///
/// The rows are those that the store returned for this one id. Where there
/// is none, no item has the id. Otherwise the item is the first that the rows
/// fold to: it has the id, the text and the state of the first row, and the
/// labels of all rows with that id.
pub fn entity_from_rows(id: i32, rows: Vec<TodoWithLabelFromRow>) -> (found: Result<
    TodoEntity,
    RepositoryError,
>)
    ensures
        rows.len() == 0 ==> found is Err && found->Err_0@ == ErrorView::NotFound(id),
        rows.len() > 0 ==> found is Ok && found->Ok_0@ == folded(rows.deep_view())[0]
            && found->Ok_0@ == item_of(rows.deep_view(), rows.deep_view()[0]),
{
    let ghost all = rows.deep_view();
    let mut todos = fold_entities(rows);
    proof {
        lemma_folded_len(all);
        if all.len() > 0 {
            lemma_folded_holds_item(all, 0);
        }
    }
    if todos.len() == 0 {
        Err(RepositoryError::NotFound(id))
    } else {
        Ok(todos.swap_remove(0))
    }
}

/// Rows fold to no item only where there is no row, and never to more items
/// than there are rows.
pub proof fn lemma_folded_len(rows: Seq<RowView>)
    ensures
        folded(rows).len() <= rows.len(),
        rows.len() > 0 ==> folded(rows).len() > 0,
    decreases rows.len(),
{
    lemma_opening_rows_len(rows);
}

/// There are no more opening rows than rows, and one at least where there is a row.
proof fn lemma_opening_rows_len(rows: Seq<RowView>)
    ensures
        opening_rows(rows).len() <= rows.len(),
        rows.len() > 0 ==> opening_rows(rows).len() > 0,
    decreases rows.len(),
{
    if rows.len() > 0 {
        let earlier = rows.drop_last();
        lemma_opening_rows_len(earlier);
        if earlier.len() == 0 {
        }
    }
}

} // verus!
