//! Tool calls put together from the pieces in which a chat stream sends them.

use vstd::hash_map::StringHashMap;
use vstd::prelude::*;

use crate::json::{items_view, lemma_items_view, Json, JsonView};
use crate::protocol::{conversation, opt_text, ItemView, ResponseItem};
use crate::text::{decimal, decimal_text};

verus! {

/// A tool call, as far as its pieces have come.
#[derive(Debug)]
pub struct ToolCallState {
    pub index: usize,
    pub id: Option<String>,
    pub name: Option<String>,
    pub arguments: String,
}

/// What a tool call is, as far as its pieces have come.
pub struct CallView {
    pub index: usize,
    pub id: Option<Seq<char>>,
    pub name: Option<Seq<char>>,
    pub arguments: Seq<char>,
}

impl ToolCallState {
    pub open spec fn view(&self) -> CallView {
        CallView {
            index: self.index,
            id: opt_text(self.id),
            name: opt_text(self.name),
            arguments: self.arguments@,
        }
    }
}

/// The tool calls that a stream has under way.
pub struct ToolCalls {
    /// In the order in which their first pieces came.
    pending: Vec<ToolCallState>,
    /// The index under which each id was first seen.
    index_by_id: StringHashMap<usize>,
    /// Where the search for an unused index starts.
    next_index: usize,
    /// The index of the last piece.
    last_index: Option<usize>,
}

/// What the tool calls under way are.
#[verifier::ext_equal]
pub struct CallsView {
    pub pending: Seq<CallView>,
    pub ids: Map<Seq<char>, usize>,
    pub next: usize,
    pub last: Option<usize>,
}

/// What calls are, in order.
pub open spec fn calls_view(calls: Seq<ToolCallState>) -> Seq<CallView> {
    calls.map_values(|call: ToolCallState| call@)
}

/// The place in `pending` of the call with the given index, or -1.
pub open spec fn place_of(pending: Seq<CallView>, index: usize) -> int
    decreases pending.len(),
{
    if pending.len() == 0 {
        -1
    } else if pending.last().index == index {
        pending.len() - 1
    } else {
        place_of(pending.drop_last(), index)
    }
}

/// The first index that no pending call has, from `from` on, where at most
/// `tries` indices are passed over.
pub open spec fn first_free(pending: Seq<CallView>, from: usize, tries: nat) -> usize
    decreases tries,
{
    if tries == 0 || place_of(pending, from) < 0 {
        from
    } else {
        first_free(pending, from.wrapping_add(1), (tries - 1) as nat)
    }
}

/// The index that a piece carries.
pub open spec fn carried_index(piece: JsonView) -> Option<usize> {
    match piece.integer_field("index"@, 0, u64::MAX as int) {
        Some(n) => Some((n as u64) as usize),
        None => None,
    }
}

impl CallsView {
    /// No two pending calls have one index.
    pub open spec fn wf(self) -> bool {
        forall|i: int, j: int|
            0 <= i < j < self.pending.len() ==> (#[trigger] self.pending[i]).index != (
            #[trigger] self.pending[j]).index
    }

    /// The index of the call that a piece continues: that of the call known by
    /// its id, else the one that it carries, else, where it has no id, that of
    /// the piece before it.
    pub open spec fn continued_index(self, piece: JsonView) -> Option<usize> {
        match piece.text_field("id"@) {
            Some(id) => if self.ids.contains_key(id) {
                Some(self.ids[id])
            } else {
                carried_index(piece)
            },
            None => match carried_index(piece) {
                Some(index) => Some(index),
                None => self.last,
            },
        }
    }

    /// The index that a call gets which continues none.
    pub open spec fn unused_index(self) -> usize {
        first_free(self.pending, self.next, self.pending.len())
    }

    /// The index of the call that a piece belongs to.
    pub open spec fn index_of(self, piece: JsonView) -> usize {
        match self.continued_index(piece) {
            Some(index) => index,
            None => self.unused_index(),
        }
    }

    /// The calls once a piece has come.
    pub open spec fn after_piece(self, piece: JsonView) -> CallsView {
        let index = self.index_of(piece);
        CallsView {
            pending: with_piece(self.pending, index, piece),
            ids: match piece.text_field("id"@) {
                Some(id) => if self.ids.contains_key(id) {
                    self.ids
                } else {
                    self.ids.insert(id, index)
                },
                None => self.ids,
            },
            next: match self.continued_index(piece) {
                Some(_) => self.next,
                None => index.wrapping_add(1),
            },
            last: Some(index),
        }
    }

    /// The calls once pieces have come.
    pub open spec fn after_pieces(self, pieces: Seq<JsonView>) -> CallsView
        decreases pieces.len(),
    {
        if pieces.len() == 0 {
            self
        } else {
            self.after_pieces(pieces.drop_last()).after_piece(pieces.last())
        }
    }

    /// The calls once the pending ones have been handed out.
    pub open spec fn after_finish(self) -> CallsView {
        CallsView { pending: Seq::empty(), ..self }
    }
}

/// The calls before anything has come.
pub open spec fn no_calls() -> CallsView {
    CallsView { pending: Seq::empty(), ids: Map::empty(), next: 0, last: None }
}

/// A call that has no piece yet.
pub open spec fn new_call(index: usize) -> CallView {
    CallView { index, id: None, name: None, arguments: Seq::empty() }
}

/// A call once a piece of it has come: the first id and the first name that is
/// not empty stay, arguments are appended.
pub open spec fn call_with_piece(call: CallView, piece: JsonView) -> CallView {
    let function = piece.field("function"@);
    CallView {
        index: call.index,
        id: match call.id {
            Some(id) => Some(id),
            None => piece.text_field("id"@),
        },
        name: match (call.name, function) {
            (None, Some(function)) => match function.text_field("name"@) {
                Some(name) => if name.len() > 0 {
                    Some(name)
                } else {
                    None
                },
                None => None,
            },
            _ => call.name,
        },
        arguments: match function {
            Some(function) => match function.text_field("arguments"@) {
                Some(arguments) => call.arguments + arguments,
                None => call.arguments,
            },
            None => call.arguments,
        },
    }
}

/// Pending calls once a piece of the call at `index` has come.
pub open spec fn with_piece(pending: Seq<CallView>, index: usize, piece: JsonView) -> Seq<CallView> {
    let place = place_of(pending, index);
    if place < 0 {
        pending.push(call_with_piece(new_call(index), piece))
    } else {
        pending.update(place, call_with_piece(pending[place], piece))
    }
}

/// The id of a finished call: its own, or one made from its index.
pub open spec fn finished_id(call: CallView) -> Seq<char> {
    match call.id {
        Some(id) => id,
        None => "tool-call-"@ + decimal(call.index as nat),
    }
}

/// The items that finished calls become, in order; a call without a name is
/// left out.
pub open spec fn finished_calls(pending: Seq<CallView>) -> Seq<ItemView>
    decreases pending.len(),
{
    if pending.len() == 0 {
        Seq::empty()
    } else {
        let items = finished_calls(pending.drop_last());
        let call = pending.last();
        match call.name {
            Some(name) => items.push(
                ItemView::FunctionCall {
                    id: None,
                    name,
                    namespace: None,
                    arguments: call.arguments,
                    call_id: finished_id(call),
                },
            ),
            None => items,
        }
    }
}

proof fn lemma_place_of(pending: Seq<CallView>, index: usize)
    ensures
        -1 <= place_of(pending, index) < pending.len(),
        place_of(pending, index) >= 0 ==> pending[place_of(pending, index)].index == index,
        place_of(pending, index) < 0 ==> forall|i: int|
            0 <= i < pending.len() ==> (#[trigger] pending[i]).index != index,
    decreases pending.len(),
{
    if pending.len() > 0 {
        lemma_place_of(pending.drop_last(), index);
        if place_of(pending, index) < 0 {
            assert forall|i: int| 0 <= i < pending.len() implies (#[trigger] pending[i]).index
                != index by {
                if i < pending.len() - 1 {
                    assert(pending.drop_last()[i].index != index);
                }
            }
        }
    }
}

/// However many pieces come, no two pending calls have one index.
pub proof fn law_pending_indices_stay_distinct(calls: CallsView, pieces: Seq<JsonView>)
    requires
        calls.wf(),
    ensures
        calls.after_pieces(pieces).wf(),
    decreases pieces.len(),
{
    if pieces.len() > 0 {
        law_pending_indices_stay_distinct(calls, pieces.drop_last());
        let before = calls.after_pieces(pieces.drop_last());
        lemma_place_of(before.pending, before.index_of(pieces.last()));
    }
}

proof fn lemma_first_free(pending: Seq<CallView>, from: usize, start: usize, passed: nat)
    requires
        pending.len() <= usize::MAX,
        passed <= pending.len(),
        from as int == (start + passed) % (usize::MAX + 1),
        forall|k: int|
            0 <= k < passed ==> place_of(
                pending,
                #[trigger] index_after(start, k),
            ) >= 0,
    ensures
        place_of(pending, first_free(pending, from, (pending.len() - passed) as nat)) < 0,
    decreases pending.len() - passed,
{
    if place_of(pending, from) >= 0 {
        assert(index_after(start, passed as int) == from);
        if passed == pending.len() {
            lemma_one_is_free(pending, start);
        } else {
            lemma_next_index(start, passed as int);
            lemma_first_free(pending, from.wrapping_add(1), start, passed + 1);
        }
    }
}

/// The index `k` steps after `start`.
spec fn index_after(start: usize, k: int) -> usize {
    ((start + k) % (usize::MAX + 1)) as usize
}

proof fn lemma_next_index(start: usize, k: int)
    requires
        0 <= k,
    ensures
        index_after(start, k).wrapping_add(1) as int == (start + k + 1) % (usize::MAX + 1),
{
    let n: int = usize::MAX + 1;
    let sum: int = start + k;
    vstd::arithmetic::div_mod::lemma_fundamental_div_mod(sum, n);
    vstd::arithmetic::div_mod::lemma_mod_bound(sum, n);
    vstd::arithmetic::div_mod::lemma_add_mod_noop(sum, 1, n);
    vstd::arithmetic::div_mod::lemma_small_mod(1, n as nat);
    if sum % n == n - 1 {
        vstd::arithmetic::div_mod::lemma_mod_self_0(n);
    } else {
        vstd::arithmetic::div_mod::lemma_small_mod((sum % n + 1) as nat, n as nat);
    }
}

/// Of more indices than there are pending calls, one is free.
proof fn lemma_one_is_free(pending: Seq<CallView>, start: usize)
    requires
        pending.len() <= usize::MAX,
    ensures
        exists|k: int|
            0 <= k <= pending.len() && place_of(pending, #[trigger] index_after(start, k)) < 0,
{
    let n: int = usize::MAX + 1;
    let tried = Seq::new(pending.len() + 1, |k: int| index_after(start, k));
    let taken = pending.map_values(|call: CallView| call.index);
    assert(tried.no_duplicates()) by {
        assert forall|i: int, j: int| 0 <= i < j < tried.len() implies tried[i] != tried[j] by {
            if tried[i] == tried[j] {
                vstd::arithmetic::div_mod::lemma_fundamental_div_mod(start + i, n);
                vstd::arithmetic::div_mod::lemma_fundamental_div_mod(start + j, n);
                let p = (start + i) / n;
                let q = (start + j) / n;
                assert(j - i == n * (q - p)) by (nonlinear_arith)
                    requires
                        start + i == n * p + (start + i) % n,
                        start + j == n * q + (start + j) % n,
                        (start + i) % n == (start + j) % n,
                ;
                assert(n * (q - p) >= n || n * (q - p) <= 0) by (nonlinear_arith)
                    requires
                        n > 0,
                ;
            }
        }
    }
    tried.unique_seq_to_set();
    if forall|k: int|
        0 <= k <= pending.len() ==> place_of(pending, #[trigger] index_after(start, k)) >= 0 {
        assert forall|index: usize| tried.to_set().contains(index) implies taken.to_set().contains(
            index,
        ) by {
            let k = choose|k: int| 0 <= k < tried.len() && tried[k] == index;
            assert(index_after(start, k) == index);
            lemma_place_of(pending, index);
            assert(taken[place_of(pending, index)] == index);
        }
        vstd::seq_lib::seq_to_set_is_finite(taken);
        vstd::set_lib::lemma_len_subset(tried.to_set(), taken.to_set());
        taken.lemma_cardinality_of_set();
    }
}

/// A call that continues none gets an index that no pending call has, so that
/// it never mixes with another call.
pub proof fn law_unused_index_is_unused(calls: CallsView)
    requires
        calls.pending.len() <= usize::MAX,
    ensures
        forall|i: int|
            0 <= i < calls.pending.len() ==> (#[trigger] calls.pending[i]).index
                != calls.unused_index(),
{
    vstd::arithmetic::div_mod::lemma_small_mod(calls.next as nat, (usize::MAX + 1) as nat);
    lemma_first_free(calls.pending, calls.next, calls.next, 0);
    lemma_place_of(calls.pending, calls.unused_index());
}

/// Ids that are made from indices tell calls apart.
pub proof fn law_made_ids_are_distinct(one: CallView, other: CallView)
    requires
        one.id is None,
        other.id is None,
        one.index != other.index,
    ensures
        finished_id(one) != finished_id(other),
{
    if finished_id(one) == finished_id(other) {
        let prefix = "tool-call-"@;
        assert(finished_id(one).skip(prefix.len() as int) =~= decimal(one.index as nat));
        assert(finished_id(other).skip(prefix.len() as int) =~= decimal(other.index as nat));
        crate::text::lemma_decimal_is_injective(one.index as nat, other.index as nat);
    }
}

/// The arguments of the call at `index`, or nothing where it is not pending.
pub open spec fn arguments_at(pending: Seq<CallView>, index: usize) -> Seq<char> {
    let place = place_of(pending, index);
    if place < 0 {
        Seq::empty()
    } else {
        pending[place].arguments
    }
}

/// The arguments that a piece carries.
pub open spec fn carried_arguments(piece: JsonView) -> Seq<char> {
    match piece.field("function"@) {
        Some(function) => match function.text_field("arguments"@) {
            Some(arguments) => arguments,
            None => Seq::empty(),
        },
        None => Seq::empty(),
    }
}

/// A piece adds its arguments at the end of those of its own call and leaves
/// the arguments of every other call alone.
pub proof fn law_pieces_append_to_their_call(calls: CallsView, piece: JsonView, index: usize)
    requires
        calls.wf(),
    ensures
        arguments_at(calls.after_piece(piece).pending, index) == if index == calls.index_of(piece) {
            arguments_at(calls.pending, index) + carried_arguments(piece)
        } else {
            arguments_at(calls.pending, index)
        },
{
    let own = calls.index_of(piece);
    let before = calls.pending;
    let after = calls.after_piece(piece).pending;
    lemma_place_of(before, own);
    lemma_place_of(before, index);
    lemma_place_of(after, index);
    lemma_place_of(after, own);
    assert(Seq::<char>::empty() + carried_arguments(piece) =~= carried_arguments(piece));
    assert(arguments_at(before, index) + Seq::<char>::empty() =~= arguments_at(before, index));
    let place = place_of(before, own);
    if place < 0 {
        assert(after[before.len() as int].index == own);
        if index != own && place_of(before, index) >= 0 {
            assert(after[place_of(before, index)].index == index);
        }
        if index != own && place_of(after, index) >= 0 {
            assert(before[place_of(after, index)].index == index);
        }
    } else {
        assert(after[place].index == own);
        if place_of(before, index) >= 0 {
            assert(after[place_of(before, index)].index == index);
        }
        if place_of(after, index) >= 0 {
            assert(before[place_of(after, index)].index == index);
        }
    }
}

/// Adds what `piece` carries to its call.
fn add_piece(call: &mut ToolCallState, piece: &Json)
    ensures
        final(call)@ == call_with_piece(old(call)@, piece@),
{
    if call.id.is_none() {
        if let Some(id) = piece.get_str("id") {
            call.id = Some(id.to_owned());
        }
    }
    if let Some(function) = piece.get("function") {
        if call.name.is_none() {
            if let Some(name) = function.get_str("name") {
                if name.unicode_len() > 0 {
                    call.name = Some(name.to_owned());
                }
            }
        }
        if let Some(arguments) = function.get_str("arguments") {
            call.arguments.append(arguments);
        }
    }
}

impl ToolCalls {
    pub closed spec fn view(&self) -> CallsView {
        CallsView {
            pending: calls_view(self.pending@),
            ids: self.index_by_id@,
            next: self.next_index,
            last: self.last_index,
        }
    }

    /// No two pending calls have one index.
    #[verifier::type_invariant]
    spec fn indices_differ(self) -> bool {
        self@.wf()
    }

    /// No calls.
    pub fn new() -> (result: Self)
        ensures
            result@ == no_calls(),
            result@.wf(),
    {
        let result = ToolCalls {
            pending: Vec::new(),
            index_by_id: StringHashMap::new(),
            next_index: 0,
            last_index: None,
        };
        assert(result@ =~= no_calls());
        result
    }

    fn place(&self, index: usize) -> (result: Option<usize>)
        ensures
            match result {
                Some(place) => place < self.pending.len() && place_of(self@.pending, index)
                    == place,
                None => place_of(self@.pending, index) < 0,
            },
    {
        let ghost pending = self@.pending;
        let mut i: usize = self.pending.len();
        assert(pending.take(i as int) =~= pending);
        while i > 0
            invariant
                i <= self.pending.len(),
                pending == calls_view(self.pending@),
                place_of(pending, index) == place_of(pending.take(i as int), index),
            decreases i,
        {
            assert(pending.take(i as int).drop_last() =~= pending.take(i - 1));
            assert(pending.take(i as int).last() == self.pending[i - 1]@);
            i = i - 1;
            if self.pending[i].index == index {
                return Some(i);
            }
        }
        None
    }

    /// An index that no pending call has.
    fn find_unused(&self) -> (result: usize)
        ensures
            result == self@.unused_index(),
    {
        let mut index: usize = self.next_index;
        let mut tries: usize = self.pending.len();
        loop
            invariant
                first_free(self@.pending, index, tries as nat) == self@.unused_index(),
            ensures
                index == self@.unused_index(),
            decreases tries,
        {
            if tries == 0 {
                break;
            }
            if self.place(index).is_none() {
                break;
            }
            index = index.wrapping_add(1);
            tries = tries - 1;
        }
        index
    }

    /// Takes in a piece of a call: an element of a delta's `tool_calls`.
    pub fn apply_delta(&mut self, piece: &Json)
        ensures
            final(self)@ == old(self)@.after_piece(piece@),
            final(self)@.wf(),
    {
        let ghost before = self@;
        proof {
            use_type_invariant(&*self);
        }
        let id = piece.get_str("id");
        let carried: Option<usize> = match piece.get_u64("index") {
            Some(n) => Some(n as usize),
            None => None,
        };
        let continued: Option<usize> = match id {
            Some(id) => match self.index_by_id.get(id) {
                Some(known) => Some(*known),
                None => carried,
            },
            None => match carried {
                Some(index) => Some(index),
                None => self.last_index,
            },
        };
        assert(continued == before.continued_index(piece@));
        let index: usize = match continued {
            Some(index) => index,
            None => {
                let index: usize = self.find_unused();
                self.next_index = index.wrapping_add(1);
                index
            },
        };
        if let Some(id) = id {
            if !self.index_by_id.contains_key(id) {
                let mut index_by_id: StringHashMap<usize> = StringHashMap::new();
                std::mem::swap(&mut self.index_by_id, &mut index_by_id);
                index_by_id.insert(id.to_owned(), index);
                self.index_by_id = index_by_id;
            }
        }
        self.last_index = Some(index);
        proof {
            lemma_place_of(before.pending, index);
        }
        let found = self.place(index);
        let mut pending: Vec<ToolCallState> = Vec::new();
        std::mem::swap(&mut self.pending, &mut pending);
        match found {
            Some(place) => {
                add_piece(&mut pending[place], piece);
            },
            None => {
                let mut call = ToolCallState {
                    index,
                    id: None,
                    name: None,
                    arguments: String::new(),
                };
                assert(call@ == new_call(index)) by {
                    assert(call.arguments@ =~= Seq::empty());
                }
                add_piece(&mut call, piece);
                pending.push(call);
            },
        }
        proof {
            assert(calls_view(pending@) =~= with_piece(before.pending, index, piece@));
            reveal_with_fuel(CallsView::after_pieces, 2);
            assert(seq![piece@].drop_last() =~= Seq::empty());
            law_pending_indices_stay_distinct(before, seq![piece@]);
        }
        self.pending = pending;
        assert(self@ =~= before.after_piece(piece@));
    }

    /// Takes in the pieces of a delta's `tool_calls`.
    pub fn apply_deltas(&mut self, pieces: &Vec<Json>)
        ensures
            final(self)@ == old(self)@.after_pieces(items_view(pieces@)),
            final(self)@.wf(),
    {
        let ghost before = self@;
        let ghost views = items_view(pieces@);
        proof {
            use_type_invariant(&*self);
            lemma_items_view(pieces@);
        }
        let mut i: usize = 0;
        assert(views.take(0) =~= Seq::empty());
        while i < pieces.len()
            invariant
                i <= pieces.len(),
                self@.wf(),
                views == items_view(pieces@),
                views.len() == pieces.len(),
                self@ == before.after_pieces(views.take(i as int)),
            decreases pieces.len() - i,
        {
            self.apply_delta(&pieces[i]);
            proof {
                lemma_items_view(pieces@);
                assert(views.take(i + 1).drop_last() =~= views.take(i as int));
                assert(views.take(i + 1).last() == pieces[i as int]@);
            }
            i = i + 1;
        }
        assert(views.take(i as int) =~= views);
    }

    /// Hands the pending calls out as items, in the order of their first pieces.
    pub fn finish(&mut self) -> (result: Vec<ResponseItem>)
        ensures
            conversation(result@) == finished_calls(old(self)@.pending),
            final(self)@ == old(self)@.after_finish(),
            final(self)@.wf(),
    {
        let ghost before = self@;
        let mut items: Vec<ResponseItem> = Vec::new();
        let mut i: usize = 0;
        assert(before.pending.take(0) =~= Seq::empty());
        assert(conversation(items@) =~= Seq::empty());
        while i < self.pending.len()
            invariant
                i <= self.pending.len(),
                before == self@,
                conversation(items@) == finished_calls(before.pending.take(i as int)),
            decreases self.pending.len() - i,
        {
            let ghost done = items@;
            let call = &self.pending[i];
            assert(before.pending.take(i + 1).drop_last() =~= before.pending.take(i as int));
            assert(before.pending.take(i + 1).last() == call@);
            if let Some(name) = &call.name {
                let call_id = match &call.id {
                    Some(id) => id.clone(),
                    None => {
                        let mut made = "tool-call-".to_owned();
                        made.append(decimal_text(call.index).as_str());
                        made
                    },
                };
                items.push(
                    ResponseItem::FunctionCall {
                        id: None,
                        name: name.clone(),
                        namespace: None,
                        arguments: call.arguments.clone(),
                        call_id,
                    },
                );
                assert(conversation(items@) =~= conversation(done).push(items@.last()@));
            }
            i = i + 1;
        }
        assert(before.pending.take(i as int) =~= before.pending);
        self.pending = Vec::new();
        assert(self@ =~= before.after_finish());
        items
    }
}

} // verus!
