//! What comes of the pieces of tool calls.

use vstd::prelude::*;

use crate::json::{JsonView, NumberView};
use crate::protocol::ItemView;
use crate::text::decimal;
use crate::tool_calls::{finished_calls, no_calls, place_of, CallView, CallsView};

verus! {

/// Whether the call at `index` is pending at `place`.
pub open spec fn is_pending_at(pending: Seq<CallView>, index: usize, place: int) -> bool {
    0 <= place < pending.len() && pending[place].index == index
}

/// Whether no call at `index` is pending.
pub open spec fn is_free(pending: Seq<CallView>, index: usize) -> bool {
    forall|i: int| 0 <= i < pending.len() ==> (#[trigger] pending[i]).index != index
}

proof fn lemma_place(pending: Seq<CallView>, index: usize)
    ensures
        -1 <= place_of(pending, index) < pending.len(),
        place_of(pending, index) >= 0 ==> pending[place_of(pending, index)].index == index,
        place_of(pending, index) < 0 <==> is_free(pending, index),
    decreases pending.len(),
{
    if pending.len() > 0 {
        lemma_place(pending.drop_last(), index);
        if place_of(pending, index) < 0 {
            assert forall|i: int| 0 <= i < pending.len() implies (#[trigger] pending[i]).index
                != index by {
                if i < pending.len() - 1 {
                    assert(pending.drop_last()[i].index != index);
                }
            }
        } else {
            assert(pending[place_of(pending, index)].index == index);
        }
    }
}

/// Pieces are taken in one by one, every one of them and in order: those of no
/// piece are the calls that were there, and one piece more is taken in by the
/// calls that the others left.
pub proof fn law_pieces_are_taken_in_one_by_one(
    calls: CallsView,
    pieces: Seq<JsonView>,
    piece: JsonView,
)
    ensures
        calls.after_pieces(Seq::empty()) == calls,
        calls.after_pieces(seq![piece]) == calls.after_piece(piece),
        calls.after_pieces(pieces.push(piece)) == calls.after_pieces(pieces).after_piece(piece),
{
    reveal_with_fuel(CallsView::after_pieces, 2);
    assert(seq![piece].drop_last() =~= Seq::empty());
    assert(pieces.push(piece).drop_last() =~= pieces);
}

/// Pieces that come in two lots come to what they come to in one.
pub proof fn law_pieces_may_come_in_lots(
    calls: CallsView,
    first: Seq<JsonView>,
    second: Seq<JsonView>,
)
    ensures
        calls.after_pieces(first + second) == calls.after_pieces(first).after_pieces(second),
    decreases second.len(),
{
    if second.len() == 0 {
        assert(first + second =~= first);
        assert(second =~= Seq::empty());
        law_pieces_are_taken_in_one_by_one(calls.after_pieces(first), second, JsonView::Null);
    } else {
        law_pieces_may_come_in_lots(calls, first, second.drop_last());
        assert(first + second =~= (first + second.drop_last()).push(second.last()));
        law_pieces_are_taken_in_one_by_one(calls, first + second.drop_last(), second.last());
        assert(second =~= second.drop_last().push(second.last()));
        law_pieces_are_taken_in_one_by_one(
            calls.after_pieces(first),
            second.drop_last(),
            second.last(),
        );
    }
}

/// A piece belongs to the call that its id is known for, whatever index it
/// carries; else to the call at the index that it carries; else, where it has no
/// id either, to the call of the piece before it; else to a new call.
pub proof fn law_pieces_find_their_call(
    calls: CallsView,
    piece: Map<Seq<char>, JsonView>,
    id: Seq<char>,
    n: int,
)
    requires
        0 <= n <= u64::MAX,
    ensures
        ({
            let index = calls.index_of(JsonView::Object(piece));
            let has_id = piece.contains_key("id"@) && piece["id"@] == JsonView::Str(id);
            let no_id = !piece.contains_key("id"@) || !(piece["id"@] is Str);
            let has_index = piece.contains_key("index"@) && piece["index"@] == JsonView::Number(
                NumberView::Int(n),
            );
            let no_index = !(piece.contains_key("index"@) && (piece["index"@] matches JsonView::Number(
                NumberView::Int(m),
            ) && 0 <= m <= u64::MAX));
            &&& has_id && calls.ids.contains_key(id) ==> index == calls.ids[id]
            &&& has_id && !calls.ids.contains_key(id) && has_index ==> index == (n as u64) as usize
            &&& no_id && has_index ==> index == (n as u64) as usize
            &&& no_id && no_index && calls.last is Some ==> index == calls.last->0
            &&& no_id && no_index && calls.last is None ==> index == calls.unused_index()
            &&& has_id && !calls.ids.contains_key(id) && no_index ==> index
                == calls.unused_index()
        }),
{
}

/// A new call gets the first index that is free from the next one on.
pub proof fn law_new_calls_get_the_first_free_index(calls: CallsView, index: usize)
    requires
        calls.next + calls.pending.len() <= usize::MAX,
        calls.next <= index < calls.unused_index(),
    ensures
        !is_free(calls.pending, index),
{
    lemma_all_passed_over(calls.pending, calls.next, calls.pending.len(), index);
}

proof fn lemma_all_passed_over(pending: Seq<CallView>, from: usize, tries: nat, index: usize)
    requires
        from + tries <= usize::MAX,
        from <= index < crate::tool_calls::first_free(pending, from, tries),
    ensures
        !is_free(pending, index),
    decreases tries,
{
    lemma_place(pending, from);
    if tries > 0 && place_of(pending, from) >= 0 && from < index {
        lemma_all_passed_over(pending, from.wrapping_add(1), (tries - 1) as nat, index);
    }
}

/// A new call starts looking where the next one is free.
pub proof fn law_a_free_next_index_is_taken(calls: CallsView)
    requires
        is_free(calls.pending, calls.next),
    ensures
        calls.unused_index() == calls.next,
{
    lemma_place(calls.pending, calls.next);
}

/// The first piece of a call makes it pending, behind the others, with what the
/// piece carries: its id, its name where that is not empty, and its arguments.
pub proof fn law_first_pieces_start_calls(
    calls: CallsView,
    piece: Map<Seq<char>, JsonView>,
    function: Map<Seq<char>, JsonView>,
    name: Seq<char>,
    arguments: Seq<char>,
)
    requires
        is_free(calls.pending, calls.index_of(JsonView::Object(piece))),
    ensures
        ({
            let after = calls.after_piece(JsonView::Object(piece)).pending;
            let call = after.last();
            let has_function = piece.contains_key("function"@) && piece["function"@]
                == JsonView::Object(function);
            &&& after.len() == calls.pending.len() + 1
            &&& after.drop_last() == calls.pending
            &&& call.index == calls.index_of(JsonView::Object(piece))
            &&& piece.contains_key("id"@) && piece["id"@] is Str ==> call.id == Some(
                piece["id"@]->Str_0,
            )
            &&& !(piece.contains_key("id"@) && piece["id"@] is Str) ==> call.id is None
            &&& has_function && function.contains_key("name"@) && function["name"@]
                == JsonView::Str(name) && name.len() > 0 ==> call.name == Some(name)
            &&& has_function && function.contains_key("name"@) && function["name"@]
                == JsonView::Str(name) && name.len() == 0 ==> call.name is None
            &&& has_function && !(function.contains_key("name"@) && function["name"@] is Str)
                ==> call.name is None
            &&& !(piece.contains_key("function"@) && piece["function"@] is Object) ==> call.name
                is None && call.arguments.len() == 0
            &&& has_function && function.contains_key("arguments"@) && function["arguments"@]
                == JsonView::Str(arguments) ==> call.arguments == arguments
            &&& has_function && !(function.contains_key("arguments"@) && function["arguments"@] is Str)
                ==> call.arguments.len() == 0
        }),
{
    lemma_place(calls.pending, calls.index_of(JsonView::Object(piece)));
    let after = calls.after_piece(JsonView::Object(piece)).pending;
    assert(after.drop_last() =~= calls.pending);
    assert(Seq::<char>::empty() + arguments =~= arguments);
}

/// A later piece of a call changes that call alone: it keeps its place, its
/// index, an id and a name that it has, gets those that it lacks, and has the
/// piece's arguments behind its own.
pub proof fn law_later_pieces_add_to_their_call(
    calls: CallsView,
    piece: Map<Seq<char>, JsonView>,
    function: Map<Seq<char>, JsonView>,
    place: int,
    name: Seq<char>,
    arguments: Seq<char>,
)
    requires
        calls.wf(),
        is_pending_at(calls.pending, calls.index_of(JsonView::Object(piece)), place),
    ensures
        ({
            let before = calls.pending;
            let after = calls.after_piece(JsonView::Object(piece)).pending;
            let has_function = piece.contains_key("function"@) && piece["function"@]
                == JsonView::Object(function);
            &&& after.len() == before.len()
            &&& forall|i: int| 0 <= i < before.len() && i != place ==> after[i] == before[i]
            &&& after[place].index == before[place].index
            &&& before[place].id is Some ==> after[place].id == before[place].id
            &&& before[place].id is None && piece.contains_key("id"@) && piece["id"@] is Str
                ==> after[place].id == Some(piece["id"@]->Str_0)
            &&& before[place].id is None && !(piece.contains_key("id"@) && piece["id"@] is Str)
                ==> after[place].id is None
            &&& before[place].name is Some ==> after[place].name == before[place].name
            &&& before[place].name is None && has_function && function.contains_key("name"@)
                && function["name"@] == JsonView::Str(name) && name.len() > 0 ==> after[place].name
                == Some(name)
            &&& before[place].name is None && has_function && function.contains_key("name"@)
                && function["name"@] == JsonView::Str(name) && name.len() == 0 ==> after[place].name
                is None
            &&& before[place].name is None && has_function && !(function.contains_key("name"@)
                && function["name"@] is Str) ==> after[place].name is None
            &&& before[place].name is None && !(piece.contains_key("function"@)
                && piece["function"@] is Object) ==> after[place].name is None
            &&& !(piece.contains_key("function"@) && piece["function"@] is Object)
                ==> after[place].arguments == before[place].arguments
            &&& has_function && function.contains_key("arguments"@) && function["arguments"@]
                == JsonView::Str(arguments) ==> after[place].arguments == before[place].arguments
                + arguments
            &&& has_function && !(function.contains_key("arguments"@) && function["arguments"@] is Str)
                ==> after[place].arguments == before[place].arguments
        }),
{
    let index = calls.index_of(JsonView::Object(piece));
    lemma_place(calls.pending, index);
    let found = place_of(calls.pending, index);
    assert(!is_free(calls.pending, index)) by {
        assert(calls.pending[place].index == index);
    }
    if found < place {
        assert(calls.pending[found].index != calls.pending[place].index);
    } else if place < found {
        assert(calls.pending[place].index != calls.pending[found].index);
    }
}

/// A piece makes its id known for its call unless it was known before, leaves
/// every other id alone, and is the one that pieces without id and index go on
/// from; only a new call moves the index that the next one starts from.
pub proof fn law_pieces_are_remembered(
    calls: CallsView,
    piece: Map<Seq<char>, JsonView>,
    id: Seq<char>,
)
    ensures
        ({
            let index = calls.index_of(JsonView::Object(piece));
            let after = calls.after_piece(JsonView::Object(piece));
            let has_id = piece.contains_key("id"@) && piece["id"@] == JsonView::Str(id);
            let found = {
                ||| piece.contains_key("id"@) && piece["id"@] is Str && calls.ids.contains_key(
                    piece["id"@]->Str_0,
                )
                ||| piece.contains_key("index"@) && (piece["index"@] matches JsonView::Number(
                    NumberView::Int(n),
                ) && 0 <= n <= u64::MAX)
                ||| !(piece.contains_key("id"@) && piece["id"@] is Str) && calls.last is Some
            };
            &&& after.last == Some(index)
            &&& calls.ids.contains_key(id) ==> after.ids.contains_key(id) && after.ids[id]
                == calls.ids[id]
            &&& has_id && !calls.ids.contains_key(id) ==> after.ids.contains_key(id)
                && after.ids[id] == index
            &&& !has_id && !calls.ids.contains_key(id) ==> !after.ids.contains_key(id)
            &&& found ==> after.next == calls.next
            &&& !found && index < usize::MAX ==> after.next == index + 1
        }),
{
}

/// A piece that is no object is taken for one that carries nothing.
pub proof fn law_other_pieces_carry_nothing(calls: CallsView, piece: JsonView)
    requires
        !(piece is Object),
    ensures
        calls.after_piece(piece) == calls.after_piece(JsonView::Object(Map::empty())),
{
    let empty = JsonView::Object(Map::<Seq<char>, JsonView>::empty());
    assert(piece.field("id"@) == empty.field("id"@));
    assert(piece.field("index"@) == empty.field("index"@));
    assert(piece.field("function"@) == empty.field("function"@));
    assert(calls.index_of(piece) == calls.index_of(empty));
}

/// Whether a piece brings arguments for the call at an index, and no id.
pub open spec fn brings_arguments(piece: JsonView, index: usize, arguments: Seq<char>) -> bool {
    &&& piece matches JsonView::Object(fields) && {
        &&& !fields.contains_key("id"@)
        &&& fields.contains_key("index"@) && fields["index"@] == JsonView::Number(
            NumberView::Int(index as int),
        )
        &&& fields.contains_key("function"@)
        &&& fields["function"@] matches JsonView::Object(function) && {
            &&& function.contains_key("arguments"@) && function["arguments"@] == JsonView::Str(
                arguments,
            )
        }
    }
}

/// What pieces at the given indices bring for the call at `index`, one after the
/// other.
pub open spec fn brought_for(
    index: usize,
    indices: Seq<usize>,
    arguments: Seq<Seq<char>>,
) -> Seq<char>
    decreases indices.len(),
{
    if indices.len() == 0 {
        Seq::empty()
    } else if indices.last() == index {
        brought_for(index, indices.drop_last(), arguments.drop_last()) + arguments.last()
    } else {
        brought_for(index, indices.drop_last(), arguments.drop_last())
    }
}

/// The arguments of a call are those of all of its pieces put together, in the
/// order in which they came, whatever pieces of other calls came in between, and
/// in one delta or in several.
pub proof fn law_arguments_are_put_together(
    calls: CallsView,
    pieces: Seq<JsonView>,
    indices: Seq<usize>,
    arguments: Seq<Seq<char>>,
    index: usize,
    place: int,
)
    requires
        calls.wf(),
        is_pending_at(calls.pending, index, place),
        indices.len() == pieces.len(),
        arguments.len() == pieces.len(),
        forall|k: int|
            0 <= k < pieces.len() ==> #[trigger] brings_arguments(
                pieces[k],
                indices[k],
                arguments[k],
            ),
    ensures
        ({
            let after = calls.after_pieces(pieces).pending;
            &&& is_pending_at(after, index, place)
            &&& after[place].arguments == calls.pending[place].arguments + brought_for(
                index,
                indices,
                arguments,
            )
        }),
    decreases pieces.len(),
{
    if pieces.len() == 0 {
        assert(pieces =~= Seq::empty());
        law_pieces_are_taken_in_one_by_one(calls, pieces, JsonView::Null);
        assert(calls.pending[place].arguments + Seq::<char>::empty()
            =~= calls.pending[place].arguments);
    } else {
        let n = pieces.len() - 1;
        let ps = pieces.drop_last();
        let xs = indices.drop_last();
        let gs = arguments.drop_last();
        assert forall|k: int| 0 <= k < ps.len() implies #[trigger] brings_arguments(
            ps[k],
            xs[k],
            gs[k],
        ) by {
            assert(brings_arguments(pieces[k], indices[k], arguments[k]));
        }
        law_arguments_are_put_together(calls, ps, xs, gs, index, place);
        let before = calls.after_pieces(ps);
        crate::tool_calls::law_pending_indices_stay_distinct(calls, ps);
        assert(brings_arguments(pieces[n], indices[n], arguments[n]));
        let fields = pieces[n]->Object_0;
        let function = fields["function"@]->Object_0;
        law_pieces_find_their_call(before, fields, Seq::empty(), indices[n] as int);
        assert((indices[n] as u64) as usize == indices[n]);
        assert(before.index_of(pieces[n]) == indices[n]);
        assert(pieces =~= ps.push(pieces[n]));
        law_pieces_are_taken_in_one_by_one(calls, ps, pieces[n]);
        let after = calls.after_pieces(pieces).pending;
        lemma_place(before.pending, indices[n]);
        if is_free(before.pending, indices[n]) {
            law_first_pieces_start_calls(before, fields, function, Seq::empty(), arguments[n]);
            assert(after.drop_last()[place] == before.pending[place]);
        } else {
            let at = place_of(before.pending, indices[n]);
            law_later_pieces_add_to_their_call(
                before,
                fields,
                function,
                at,
                Seq::empty(),
                arguments[n],
            );
            if at != place {
                assert(after[place] == before.pending[place]);
                if indices[n] == index {
                    if at < place {
                        assert(before.pending[at].index != before.pending[place].index);
                    } else {
                        assert(before.pending[place].index != before.pending[at].index);
                    }
                }
            } else {
                let had = calls.pending[place].arguments;
                let so_far = brought_for(index, xs, gs);
                assert((had + so_far) + arguments[n] =~= had + (so_far + arguments[n]));
            }
        }
    }
}

/// Whether a piece starts a call of its own: it has an id, an index, a name and
/// arguments.
pub open spec fn is_whole_call(
    piece: JsonView,
    id: Seq<char>,
    index: usize,
    name: Seq<char>,
    arguments: Seq<char>,
) -> bool {
    &&& piece matches JsonView::Object(fields) && {
        &&& fields.contains_key("id"@) && fields["id"@] == JsonView::Str(id)
        &&& fields.contains_key("index"@) && fields["index"@] == JsonView::Number(
            NumberView::Int(index as int),
        )
        &&& fields.contains_key("function"@)
        &&& fields["function"@] matches JsonView::Object(function) && {
            &&& function.contains_key("name"@) && function["name"@] == JsonView::Str(name)
            &&& function.contains_key("arguments"@) && function["arguments"@] == JsonView::Str(
                arguments,
            )
        }
    }
}

/// Calls that come whole, each in a piece with an id and an index of its own, in
/// one delta or in several, are all pending, as they came and in order.
pub proof fn law_whole_calls_are_all_pending(
    pieces: Seq<JsonView>,
    ids: Seq<Seq<char>>,
    indices: Seq<usize>,
    names: Seq<Seq<char>>,
    arguments: Seq<Seq<char>>,
)
    requires
        ids.len() == pieces.len(),
        indices.len() == pieces.len(),
        names.len() == pieces.len(),
        arguments.len() == pieces.len(),
        forall|k: int|
            0 <= k < pieces.len() ==> #[trigger] is_whole_call(
                pieces[k],
                ids[k],
                indices[k],
                names[k],
                arguments[k],
            ),
        forall|k: int| 0 <= k < pieces.len() ==> (#[trigger] names[k]).len() > 0,
        forall|j: int, k: int|
            0 <= j < k < pieces.len() ==> #[trigger] ids[j] != #[trigger] ids[k],
        forall|j: int, k: int|
            0 <= j < k < pieces.len() ==> #[trigger] indices[j] != #[trigger] indices[k],
    ensures
        ({
            let calls = no_calls().after_pieces(pieces);
            &&& calls.pending.len() == pieces.len()
            &&& forall|k: int|
                0 <= k < pieces.len() ==> (#[trigger] calls.pending[k]) == (CallView {
                    index: indices[k],
                    id: Some(ids[k]),
                    name: Some(names[k]),
                    arguments: arguments[k],
                })
            &&& forall|id: Seq<char>| #[trigger]
                calls.ids.contains_key(id) ==> exists|k: int|
                    0 <= k < pieces.len() && #[trigger] ids[k] == id
        }),
    decreases pieces.len(),
{
    if pieces.len() > 0 {
        let n = pieces.len() - 1;
        let ps = pieces.drop_last();
        let ds = ids.drop_last();
        let xs = indices.drop_last();
        let ns = names.drop_last();
        let gs = arguments.drop_last();
        assert forall|k: int| 0 <= k < ps.len() implies #[trigger] is_whole_call(
            ps[k],
            ds[k],
            xs[k],
            ns[k],
            gs[k],
        ) by {
            assert(is_whole_call(pieces[k], ids[k], indices[k], names[k], arguments[k]));
        }
        assert forall|j: int, k: int| 0 <= j < k < ps.len() implies #[trigger] ds[j]
            != #[trigger] ds[k] by {
            assert(ids[j] != ids[k]);
        }
        assert forall|j: int, k: int| 0 <= j < k < ps.len() implies #[trigger] xs[j]
            != #[trigger] xs[k] by {
            assert(indices[j] != indices[k]);
        }
        assert(forall|k: int| 0 <= k < ps.len() ==> (#[trigger] ns[k]).len() > 0) by {
            assert(forall|k: int| 0 <= k < ps.len() ==> #[trigger] ns[k] == names[k]);
        }
        law_whole_calls_are_all_pending(ps, ds, xs, ns, gs);
        let before = no_calls().after_pieces(ps);
        let piece = pieces[n];
        assert(is_whole_call(pieces[n], ids[n], indices[n], names[n], arguments[n]));
        let fields = piece->Object_0;
        let function = fields["function"@]->Object_0;
        assert(!before.ids.contains_key(ids[n])) by {
            if before.ids.contains_key(ids[n]) {
                let k = choose|k: int| 0 <= k < ps.len() && #[trigger] ds[k] == ids[n];
                assert(ids[k] != ids[n]);
            }
        }
        law_pieces_find_their_call(before, fields, ids[n], indices[n] as int);
        assert((indices[n] as u64) as usize == indices[n]);
        assert(before.index_of(piece) == indices[n]);
        assert(is_free(before.pending, indices[n])) by {
            assert forall|i: int| 0 <= i < before.pending.len() implies (
            #[trigger] before.pending[i]).index != indices[n] by {
                assert(indices[i] != indices[n]);
            }
        }
        law_first_pieces_start_calls(before, fields, function, names[n], arguments[n]);
        assert(pieces =~= ps.push(piece));
        law_pieces_are_taken_in_one_by_one(no_calls(), ps, piece);
        let calls = no_calls().after_pieces(pieces);
        assert forall|k: int| 0 <= k < pieces.len() implies (#[trigger] calls.pending[k]) == (
        CallView {
            index: indices[k],
            id: Some(ids[k]),
            name: Some(names[k]),
            arguments: arguments[k],
        }) by {
            if k < n {
                assert(calls.pending.drop_last()[k] == before.pending[k]);
            }
        }
        assert forall|id: Seq<char>| #[trigger] calls.ids.contains_key(id) implies exists|k: int|
            0 <= k < pieces.len() && #[trigger] ids[k] == id by {
            law_pieces_are_remembered(before, fields, id);
            if before.ids.contains_key(id) {
                let k = choose|k: int| 0 <= k < ps.len() && #[trigger] ds[k] == id;
                assert(ids[k] == id);
            } else {
                assert(ids[n] == id);
            }
        }
    } else {
        assert(pieces =~= Seq::empty());
        law_pieces_are_taken_in_one_by_one(no_calls(), pieces, JsonView::Null);
    }
}

/// Finished calls are handed out one by one and in order: each that has a name
/// as a function call with that name, its arguments, and its own id or, where it
/// has none, one made from its index; one without a name not at all.
pub proof fn law_finished_calls_are_handed_out_as_they_are(
    pending: Seq<CallView>,
    index: usize,
    id: Seq<char>,
    name: Seq<char>,
    arguments: Seq<char>,
)
    ensures
        finished_calls(Seq::empty()) == Seq::<ItemView>::empty(),
        finished_calls(pending.push(CallView { index, id: Some(id), name: Some(name), arguments }))
            == finished_calls(pending).push(
            ItemView::FunctionCall {
                id: None,
                name,
                namespace: None,
                arguments,
                call_id: id,
            },
        ),
        finished_calls(pending.push(CallView { index, id: None, name: Some(name), arguments }))
            == finished_calls(pending).push(
            ItemView::FunctionCall {
                id: None,
                name,
                namespace: None,
                arguments,
                call_id: "tool-call-"@ + decimal(index as nat),
            },
        ),
        finished_calls(pending.push(CallView { index, id: Some(id), name: None, arguments }))
            == finished_calls(pending),
        finished_calls(pending.push(CallView { index, id: None, name: None, arguments }))
            == finished_calls(pending),
{
    assert(pending.push(
        CallView { index, id: Some(id), name: Some(name), arguments },
    ).drop_last() =~= pending);
    assert(pending.push(
        CallView { index, id: None, name: Some(name), arguments },
    ).drop_last() =~= pending);
    assert(pending.push(CallView { index, id: Some(id), name: None, arguments }).drop_last()
        =~= pending);
    assert(pending.push(CallView { index, id: None, name: None, arguments }).drop_last()
        =~= pending);
}

/// Calls that come whole, each in a piece with an id and an index of its own, are
/// all handed out at the finish: one function call for each piece, in order, with
/// the piece's id, name and arguments.
pub proof fn law_whole_calls_are_all_handed_out(
    pieces: Seq<JsonView>,
    ids: Seq<Seq<char>>,
    indices: Seq<usize>,
    names: Seq<Seq<char>>,
    arguments: Seq<Seq<char>>,
)
    requires
        ids.len() == pieces.len(),
        indices.len() == pieces.len(),
        names.len() == pieces.len(),
        arguments.len() == pieces.len(),
        forall|k: int|
            0 <= k < pieces.len() ==> #[trigger] is_whole_call(
                pieces[k],
                ids[k],
                indices[k],
                names[k],
                arguments[k],
            ),
        forall|k: int| 0 <= k < pieces.len() ==> (#[trigger] names[k]).len() > 0,
        forall|j: int, k: int|
            0 <= j < k < pieces.len() ==> #[trigger] ids[j] != #[trigger] ids[k],
        forall|j: int, k: int|
            0 <= j < k < pieces.len() ==> #[trigger] indices[j] != #[trigger] indices[k],
    ensures
        finished_calls(no_calls().after_pieces(pieces).pending) == Seq::new(
            pieces.len(),
            |k: int|
                ItemView::FunctionCall {
                    id: None,
                    name: names[k],
                    namespace: None,
                    arguments: arguments[k],
                    call_id: ids[k],
                },
        ),
{
    law_whole_calls_are_all_pending(pieces, ids, indices, names, arguments);
    let pending = no_calls().after_pieces(pieces).pending;
    lemma_named_calls_are_handed_out(pending);
    let items = Seq::new(
        pieces.len(),
        |k: int|
            ItemView::FunctionCall {
                id: None,
                name: names[k],
                namespace: None,
                arguments: arguments[k],
                call_id: ids[k],
            },
    );
    assert forall|k: int| 0 <= k < items.len() implies #[trigger] finished_calls(pending)[k]
        == items[k] by {
        let call = pending[k];
    }
    assert(finished_calls(pending) =~= items);
}

proof fn lemma_named_calls_are_handed_out(pending: Seq<CallView>)
    requires
        forall|k: int|
            0 <= k < pending.len() ==> (#[trigger] pending[k]).name is Some && pending[k].id
                is Some,
    ensures
        finished_calls(pending).len() == pending.len(),
        forall|k: int|
            0 <= k < pending.len() ==> #[trigger] finished_calls(pending)[k] == (
            ItemView::FunctionCall {
                id: None,
                name: pending[k].name->0,
                namespace: None,
                arguments: pending[k].arguments,
                call_id: pending[k].id->0,
            }),
    decreases pending.len(),
{
    if pending.len() > 0 {
        let fewer = pending.drop_last();
        assert forall|k: int| 0 <= k < fewer.len() implies (#[trigger] fewer[k]).name is Some
            && fewer[k].id is Some by {
            assert(pending[k].name is Some);
        }
        lemma_named_calls_are_handed_out(fewer);
        let last = pending[pending.len() - 1];
        assert(last.name is Some);
        assert forall|k: int| 0 <= k < pending.len() implies #[trigger] finished_calls(pending)[k]
            == (ItemView::FunctionCall {
            id: None,
            name: pending[k].name->0,
            namespace: None,
            arguments: pending[k].arguments,
            call_id: pending[k].id->0,
        }) by {
            if k < fewer.len() {
                assert(finished_calls(pending)[k] == finished_calls(fewer)[k]);
                assert(fewer[k] == pending[k]);
            }
        }
    }
}

/// Handing the calls out leaves none pending, and forgets neither the ids nor
/// where the next index is looked for.
pub proof fn law_handing_out_leaves_none_pending(calls: CallsView)
    ensures
        calls.after_finish().pending.len() == 0,
        calls.after_finish().ids == calls.ids,
        calls.after_finish().next == calls.next,
        calls.after_finish().last == calls.last,
        no_calls().pending.len() == 0,
        no_calls().ids.dom().is_empty(),
        no_calls().next == 0,
        no_calls().last is None,
{
}

} // verus!
