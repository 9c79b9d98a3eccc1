//! The turns of an utterance and the one text they come down to.

use crate::clock;
use crate::json;
use crate::json::{contents, Json};
use crate::text::{is_blank, optional, texts, trim, trimmed};
use serde_json::Value;
use vstd::prelude::*;

verus! {

broadcast use vstd::string::group_string_axioms;

/// What a turn is to the conversation.
#[derive(Debug, Clone, Copy, PartialEq, Eq, Structural)]
pub enum TurnType {
    User,
    Model,
    Interjection,
    Correction,
    Backchannel,
    Append,
}

/// What became of a turn.
#[derive(Debug, Clone, Copy, PartialEq, Eq, Structural)]
pub enum TurnStatus {
    Active,
    Superseded,
    Signal,
    Filtered,
}

/// Something that was said.
#[derive(Debug)]
pub struct Turn {
    pub id: String,
    pub turn_type: TurnType,
    pub text: String,
    /// Nanoseconds since the Unix epoch.
    pub start_time: u128,
    /// Nanoseconds since the Unix epoch.
    pub end_time: u128,
    pub status: TurnStatus,
    /// The corrections that superseded this turn.
    pub corrected_by: Vec<String>,
    pub signal: Option<String>,
}

/// A turn as its texts and flags.
pub struct TurnView {
    pub id: Seq<char>,
    pub turn_type: TurnType,
    pub text: Seq<char>,
    pub start_time: u128,
    pub end_time: u128,
    pub status: TurnStatus,
    pub corrected_by: Seq<Seq<char>>,
    pub signal: Option<Seq<char>>,
}

impl View for Turn {
    type V = TurnView;

    open spec fn view(&self) -> TurnView {
        TurnView {
            id: self.id@,
            turn_type: self.turn_type,
            text: self.text@,
            start_time: self.start_time,
            end_time: self.end_time,
            status: self.status,
            corrected_by: texts(self.corrected_by@),
            signal: optional(self.signal),
        }
    }
}

fn clone_texts(list: &Vec<String>) -> (copy: Vec<String>)
    ensures
        texts(copy@) == texts(list@),
{
    let mut copy: Vec<String> = Vec::new();
    for i in 0..list.len()
        invariant
            texts(copy@) == texts(list@).take(i as int),
    {
        let ghost before = copy@;
        copy.push(list[i].clone());
        proof {
            assert(texts(copy@) =~= texts(before).push(list@[i as int]@));
            assert(texts(list@).take(i + 1) =~= texts(list@).take(i as int).push(list@[i as int]@));
        }
    }
    proof {
        assert(texts(list@).take(list.len() as int) =~= texts(list@));
    }
    copy
}

fn clone_text(text: &Option<String>) -> (copy: Option<String>)
    ensures
        optional(copy) == optional(*text),
{
    match text {
        Some(text) => Some(text.clone()),
        None => None,
    }
}

impl Clone for Turn {
    fn clone(&self) -> (copy: Self)
        ensures
            copy@ == self@,
    {
        Turn {
            id: self.id.clone(),
            turn_type: self.turn_type,
            text: self.text.clone(),
            start_time: self.start_time,
            end_time: self.end_time,
            status: self.status,
            corrected_by: clone_texts(&self.corrected_by),
            signal: clone_text(&self.signal),
        }
    }
}

/// The digit for a number below ten.
pub open spec fn digit(d: nat) -> char {
    ('0' as u32 + d) as char
}

/// A number in decimal, without leading zeros.
pub open spec fn decimal(n: nat) -> Seq<char>
    decreases n,
{
    if n < 10 {
        seq![digit(n)]
    } else {
        decimal(n / 10).push(digit(n % 10))
    }
}

/// The name of the turn with this number: at least four digits.
pub open spec fn turn_id(number: nat) -> Seq<char> {
    "turn_"@ + (if number < 10 {
        "000"@
    } else if number < 100 {
        "00"@
    } else if number < 1000 {
        "0"@
    } else {
        ""@
    }) + decimal(number)
}

fn push_decimal(text: &mut String, n: u64)
    ensures
        final(text)@ == old(text)@ + decimal(n as nat),
    decreases n,
{
    if n >= 10 {
        push_decimal(text, n / 10);
    }
    let d: u8 = (n % 10) as u8;
    text.push((48 + d) as char);
    proof {
        if n >= 10 {
            assert(text@ =~= old(text)@ + decimal((n / 10) as nat).push(digit((n % 10) as nat)));
        } else {
            assert(text@ =~= old(text)@ + seq![digit(n as nat)]);
        }
    }
}

/// Spells the name of the turn with this number.
fn make_id(number: u64) -> (id: String)
    ensures
        id@ == turn_id(number as nat),
{
    let mut id = "turn_".to_owned();
    let zeros = if number < 10 {
        "000"
    } else if number < 100 {
        "00"
    } else if number < 1000 {
        "0"
    } else {
        ""
    };
    id.append(zeros);
    push_decimal(&mut id, number);
    id
}

/// Whether a turn is the user's and still stands.
pub open spec fn is_open(turn: TurnView) -> bool {
    turn.turn_type == TurnType::User && turn.status == TurnStatus::Active
}

/// The status with which a turn of this type enters the buffer.
pub open spec fn first_status(turn_type: TurnType) -> TurnStatus {
    match turn_type {
        TurnType::Backchannel => TurnStatus::Filtered,
        TurnType::Correction | TurnType::Interjection => TurnStatus::Signal,
        TurnType::User | TurnType::Model | TurnType::Append => TurnStatus::Active,
    }
}

/// The turns after a correction: the user's turns that stood are superseded by it.
pub open spec fn superseded(turns: Seq<TurnView>, correction: Seq<char>) -> Seq<TurnView> {
    turns.map_values(
        |turn: TurnView|
            if is_open(turn) {
                TurnView {
                    status: TurnStatus::Superseded,
                    corrected_by: turn.corrected_by.push(correction),
                    ..turn
                }
            } else {
                turn
            },
    )
}

/// The trimmed texts of the turns that stand, without the blank ones. What only signals is
/// not among them.
pub open spec fn parts(turns: Seq<TurnView>) -> Seq<Seq<char>>
    decreases turns.len(),
{
    if turns.len() == 0 {
        Seq::empty()
    } else {
        let before = parts(turns.drop_last());
        let turn = turns.last();
        let text = trim(turn.text);
        if turn.status == TurnStatus::Active && text.len() > 0 {
            before.push(text)
        } else {
            before
        }
    }
}

/// The texts with one space between each two.
pub open spec fn joined(list: Seq<Seq<char>>) -> Seq<char>
    decreases list.len(),
{
    if list.len() == 0 {
        Seq::empty()
    } else if list.len() == 1 {
        list[0]
    } else {
        joined(list.drop_last()).push(' ') + list.last()
    }
}

/// Whether a turn belongs to the conversation with the assistant.
pub open spec fn in_history(turn: TurnView) -> bool {
    (turn.turn_type == TurnType::User || turn.turn_type == TurnType::Model) && turn.status
        != TurnStatus::Filtered
}

/// A turn as a message of the conversation.
pub open spec fn message(turn: TurnView) -> Json {
    let role = if turn.turn_type == TurnType::User {
        "user"@
    } else {
        "assistant"@
    };
    Json::Object(
        Map::empty().insert("role"@, Json::Text(role)).insert("content"@, Json::Text(turn.text)),
    )
}

/// A buffer of turns and the number of turns that were added to it.
pub struct Buffer {
    pub turns: Seq<TurnView>,
    pub counter: nat,
}

impl Buffer {
    /// A buffer without turns.
    pub open spec fn empty() -> Buffer {
        Buffer { turns: Seq::empty(), counter: 0 }
    }

    /// The next turn, as it enters the buffer.
    pub open spec fn next_turn(
        self,
        turn_type: TurnType,
        text: Seq<char>,
        signal: Option<Seq<char>>,
        now: u128,
    ) -> TurnView {
        TurnView {
            id: turn_id(self.counter + 1),
            turn_type,
            text,
            start_time: now,
            end_time: now,
            status: first_status(turn_type),
            corrected_by: Seq::empty(),
            signal,
        }
    }

    /// Whether a turn of this type goes on with the last turn instead of standing alone.
    pub open spec fn merges(self, turn_type: TurnType) -> bool {
        turn_type == TurnType::User && self.turns.len() > 0 && is_open(self.turns.last())
    }

    /// The last turn, gone on with.
    pub open spec fn longer_turn(self, text: Seq<char>, now: u128) -> TurnView {
        let last = self.turns.last();
        TurnView { text: last.text.push(' ') + text, end_time: now, ..last }
    }

    /// The turn that comes of an addition.
    pub open spec fn added_turn(
        self,
        turn_type: TurnType,
        text: Seq<char>,
        signal: Option<Seq<char>>,
        now: u128,
    ) -> TurnView {
        if self.merges(turn_type) {
            self.longer_turn(text, now)
        } else {
            self.next_turn(turn_type, text, signal, now)
        }
    }

    /// The buffer after an addition.
    pub open spec fn add_turn(
        self,
        turn_type: TurnType,
        text: Seq<char>,
        signal: Option<Seq<char>>,
        now: u128,
    ) -> Buffer {
        let turn = self.added_turn(turn_type, text, signal, now);
        let turns = if self.merges(turn_type) {
            self.turns.drop_last().push(turn)
        } else if turn_type == TurnType::Correction {
            superseded(self.turns, turn.id).push(turn)
        } else {
            self.turns.push(turn)
        };
        Buffer { turns, counter: self.counter + 1 }
    }

    /// The one text that the turns come down to.
    pub open spec fn reconciled(self) -> Seq<char> {
        joined(parts(self.turns))
    }

    /// The messages of the conversation.
    pub open spec fn history(self) -> Seq<Json> {
        self.turns.filter(|turn: TurnView| in_history(turn)).map_values(
            |turn: TurnView| message(turn),
        )
    }
}

/// What each of these turns says.
pub open spec fn turn_views(turns: Seq<Turn>) -> Seq<TurnView> {
    turns.map_values(|turn: Turn| turn@)
}

/// Collects turns until they are handed on.
pub struct ContextReconciler {
    turns: Vec<Turn>,
    counter: u64,
}

impl View for ContextReconciler {
    type V = Buffer;

    closed spec fn view(&self) -> Buffer {
        Buffer { turns: turn_views(self.turns@), counter: self.counter as nat }
    }
}

impl ContextReconciler {
    /// A reconciler without turns.
    pub fn new() -> (reconciler: Self)
        ensures
            reconciler@ == Buffer::empty(),
            reconciler@.valid(),
    {
        let reconciler = ContextReconciler { turns: Vec::new(), counter: 0 };
        proof {
            assert(reconciler@.turns =~= Seq::empty());
        }
        reconciler
    }

    /// Whether one more turn can be counted.
    pub fn has_room(&self) -> (room: bool)
        ensures
            room == (self@.counter < u64::MAX),
    {
        self.counter < u64::MAX
    }

    /// Adds a turn that was heard just now.
    pub fn add_turn(&mut self, turn_type: TurnType, text: String, signal: Option<String>) -> (turn:
        Turn)
        requires
            old(self)@.counter < u64::MAX,
        ensures
            exists|now: u128|
                turn@ == #[trigger] old(self)@.added_turn(turn_type, text@, optional(signal), now)
                    && final(self)@ == old(self)@.add_turn(turn_type, text@, optional(signal), now),
            old(self)@.valid() ==> final(self)@.valid(),
    {
        let now: u128 = clock::now();
        self.add_turn_at(turn_type, text, signal, now)
    }

    /// Adds a turn that was heard at `now`.
    pub fn add_turn_at(
        &mut self,
        turn_type: TurnType,
        text: String,
        signal: Option<String>,
        now: u128,
    ) -> (turn: Turn)
        requires
            old(self)@.counter < u64::MAX,
        ensures
            turn@ == old(self)@.added_turn(turn_type, text@, optional(signal), now),
            final(self)@ == old(self)@.add_turn(turn_type, text@, optional(signal), now),
            old(self)@.valid() ==> final(self)@.valid(),
    {
        proof {
            if self@.valid() {
                law_additions_keep_buffer_valid(self@, turn_type, text@, optional(signal), now);
            }
        }
        self.counter += 1;
        let id = make_id(self.counter);
        let mut turn = Turn {
            id,
            turn_type,
            text,
            start_time: now,
            end_time: now,
            status: TurnStatus::Active,
            corrected_by: Vec::new(),
            signal,
        };
        proof {
            assert(texts(turn.corrected_by@) =~= Seq::empty());
        }
        match turn_type {
            TurnType::Backchannel => {
                turn.status = TurnStatus::Filtered;
            },
            TurnType::Correction => {
                turn.status = TurnStatus::Signal;
                self.supersede(&turn.id);
            },
            TurnType::Interjection => {
                turn.status = TurnStatus::Signal;
            },
            TurnType::User => {
                let count: usize = self.turns.len();
                if count > 0 {
                    let last = &mut self.turns[count - 1];
                    if last.turn_type == TurnType::User && last.status == TurnStatus::Active {
                        last.text.push(' ');
                        last.text.append(&turn.text);
                        last.end_time = now;
                        let copy = last.clone();
                        proof {
                            assert(self@.turns =~= old(self)@.turns.drop_last().push(copy@));
                        }
                        return copy;
                    }
                    proof {
                        assert(turn_views(self.turns@) =~= old(self)@.turns);
                    }
                }
            },
            TurnType::Append | TurnType::Model => {},
        }
        let copy = turn.clone();
        let ghost kept = self.turns@;
        self.turns.push(turn);
        proof {
            assert(turn_views(self.turns@) =~= turn_views(kept).push(copy@));
        }
        copy
    }

    /// Marks the user's turns that stand as superseded by a correction.
    fn supersede(&mut self, correction: &String)
        ensures
            final(self)@.turns == superseded(old(self)@.turns, correction@),
            final(self).counter == old(self).counter,
    {
        let ghost before = turn_views(self.turns@);
        let count: usize = self.turns.len();
        for i in 0..count
            invariant
                count == before.len(),
                self.counter == old(self).counter,
                self.turns.len() == before.len(),
                turn_views(self.turns@) == superseded(before, correction@).take(i as int)
                    + before.skip(i as int),
        {
            let ghost current = turn_views(self.turns@);
            proof {
                assert(current[i as int] == before[i as int]);
            }
            let turn = &mut self.turns[i];
            if turn.turn_type == TurnType::User && turn.status == TurnStatus::Active {
                turn.status = TurnStatus::Superseded;
                let ghost list = turn.corrected_by@;
                turn.corrected_by.push(correction.clone());
                proof {
                    assert(texts(turn.corrected_by@) =~= texts(list).push(correction@));
                }
            }
            proof {
                let after = superseded(before, correction@);
                assert(turn_views(self.turns@) =~= current.update(i as int, after[i as int]));
                assert(turn_views(self.turns@) =~= after.take(i + 1) + before.skip(i + 1));
            }
        }
        proof {
            assert(turn_views(self.turns@) =~= superseded(before, correction@));
        }
    }

    /// The one text that the turns come down to.
    pub fn reconcile(&self) -> (text: String)
        ensures
            text@ == self@.reconciled(),
    {
        let mut text = String::new();
        let mut first: bool = true;
        let ghost all = turn_views(self.turns@);
        for i in 0..self.turns.len()
            invariant
                all == turn_views(self.turns@),
                first == (parts(all.take(i as int)).len() == 0),
                text@ == joined(parts(all.take(i as int))),
        {
            let turn = &self.turns[i];
            proof {
                assert(all.take(i + 1).drop_last() =~= all.take(i as int));
                assert(all.take(i + 1).last() == turn@);
            }
            if turn.status == TurnStatus::Active {
                let part = trimmed(&turn.text);
                if !part.is_empty() {
                    proof {
                        let before = parts(all.take(i as int));
                        assert(before.push(part@).drop_last() =~= before);
                    }
                    if !first {
                        text.push(' ');
                    }
                    text.append(part);
                    first = false;
                }
            }
        }
        proof {
            assert(all.take(self.turns.len() as int) =~= all);
        }
        text
    }

    /// The user's and the assistant's turns as messages.
    pub fn conversation_history(&self) -> (messages: Vec<Value>)
        ensures
            messages@.map_values(|value: Value| contents(value)) == self@.history(),
    {
        let mut messages: Vec<Value> = Vec::new();
        let ghost all = turn_views(self.turns@);
        let ghost keep = |turn: TurnView| in_history(turn);
        let ghost shape = |turn: TurnView| message(turn);
        for i in 0..self.turns.len()
            invariant
                all == turn_views(self.turns@),
                keep == (|turn: TurnView| in_history(turn)),
                shape == (|turn: TurnView| message(turn)),
                messages@.map_values(|value: Value| contents(value)) == all.take(i as int).filter(
                    keep,
                ).map_values(shape),
        {
            let turn = &self.turns[i];
            let ghost before = messages@;
            proof {
                assert(all.take(i + 1).drop_last() =~= all.take(i as int));
                reveal(Seq::filter);
            }
            if (turn.turn_type == TurnType::User || turn.turn_type == TurnType::Model)
                && turn.status != TurnStatus::Filtered {
                let role = if turn.turn_type == TurnType::User {
                    "user"
                } else {
                    "assistant"
                };
                let mut value = json::object();
                json::set(&mut value, "role", json::string(role));
                json::set(&mut value, "content", json::string(&turn.text));
                messages.push(value);
                proof {
                    assert(messages@.map_values(|value: Value| contents(value))
                        =~= before.map_values(|value: Value| contents(value)).push(
                        message(turn@),
                    ));
                    assert(all.take(i + 1).filter(keep).map_values(shape) =~= all.take(
                        i as int,
                    ).filter(keep).map_values(shape).push(message(turn@)));
                }
            }
        }
        proof {
            assert(all.take(self.turns.len() as int) =~= all);
        }
        messages
    }

    /// Forgets all turns and counts from the start again.
    pub fn reset(&mut self)
        ensures
            final(self)@ == Buffer::empty(),
            final(self)@.valid(),
    {
        self.turns.clear();
        self.counter = 0;
        proof {
            assert(self@.turns =~= Seq::empty());
        }
    }

    /// The turns in the order in which they were added.
    pub fn turns(&self) -> (turns: &[Turn])
        ensures
            turn_views(turns@) == self@.turns,
    {
        self.turns.as_slice()
    }
}

/// The number that decimal digits spell.
spec fn value(digits: Seq<char>) -> int
    decreases digits.len(),
{
    if digits.len() == 0 {
        0
    } else {
        value(digits.drop_last()) * 10 + (digits.last() as int - '0' as int)
    }
}

proof fn lemma_decimal_value(n: nat)
    ensures
        value(decimal(n)) == n,
    decreases n,
{
    if n < 10 {
        assert(decimal(n).drop_last() =~= Seq::empty());
        assert(value(decimal(n).drop_last()) == 0);
    } else {
        lemma_decimal_value(n / 10);
        assert(decimal(n).drop_last() =~= decimal(n / 10));
    }
}

proof fn lemma_leading_zeros(zeros: Seq<char>, digits: Seq<char>)
    requires
        forall|i: int| 0 <= i < zeros.len() ==> #[trigger] zeros[i] == '0',
    ensures
        value(zeros + digits) == value(digits),
    decreases zeros.len() + digits.len(),
{
    if digits.len() > 0 {
        lemma_leading_zeros(zeros, digits.drop_last());
        assert((zeros + digits).drop_last() =~= zeros + digits.drop_last());
    } else if zeros.len() > 0 {
        lemma_leading_zeros(zeros.drop_last(), digits);
        assert((zeros + digits).drop_last() =~= zeros.drop_last() + digits);
    }
}

/// Turns with different numbers have different names.
pub proof fn law_ids_tell_turns_apart(a: nat, b: nat)
    requires
        turn_id(a) == turn_id(b),
    ensures
        a == b,
{
    lemma_id_value(a);
    lemma_id_value(b);
}

proof fn lemma_id_value(n: nat)
    ensures
        value(turn_id(n).skip(5)) == n,
{
    reveal_strlit("turn_");
    reveal_strlit("000");
    reveal_strlit("00");
    reveal_strlit("0");
    reveal_strlit("");
    let zeros = if n < 10 {
        "000"@
    } else if n < 100 {
        "00"@
    } else if n < 1000 {
        "0"@
    } else {
        ""@
    };
    assert(turn_id(n).skip(5) =~= zeros + decimal(n));
    lemma_leading_zeros(zeros, decimal(n));
    lemma_decimal_value(n);
}

/// Whether a name was given to one of the first `counter` turns.
pub open spec fn is_named(id: Seq<char>, counter: nat) -> bool {
    exists|n: nat| 1 <= n <= counter && id == #[trigger] turn_id(n)
}

/// A turn has the status it came with and no corrections, or it is the user's and was
/// superseded.
pub open spec fn is_consistent(turn: TurnView) -> bool {
    ||| turn.status == first_status(turn.turn_type) && turn.corrected_by.len() == 0
    ||| turn.turn_type == TurnType::User && turn.status == TurnStatus::Superseded
}

/// Whether turn `j` is the correction that superseded turn `i`.
pub open spec fn corrects(turns: Seq<TurnView>, j: int, i: int) -> bool {
    &&& i < j < turns.len()
    &&& turns[j].turn_type == TurnType::Correction
    &&& turns[i].corrected_by == seq![turns[j].id]
}

impl Buffer {
    /// What holds of every buffer that additions lead to: names are the turns' own, each
    /// superseded turn names the one correction after it that superseded it, no turn of the
    /// user that still stands lies before a correction, and no two such turns are neighbours.
    pub open spec fn valid(self) -> bool {
        let turns = self.turns;
        &&& forall|i: int| 0 <= i < turns.len() ==> is_consistent(#[trigger] turns[i])
        &&& forall|i: int| 0 <= i < turns.len() ==> is_named((#[trigger] turns[i]).id, self.counter)
        &&& forall|i: int, j: int|
            0 <= i < j < turns.len() ==> (#[trigger] turns[i]).id != (#[trigger] turns[j]).id
        &&& forall|i: int, j: int|
            0 <= i < j < turns.len() && (#[trigger] turns[j]).turn_type == TurnType::Correction
                ==> !is_open(#[trigger] turns[i])
        &&& forall|i: int, j: int|
            0 <= i < turns.len() - 1 && j == i + 1 ==> !(is_open(#[trigger] turns[i]) && is_open(
                #[trigger] turns[j],
            ))
        &&& forall|i: int|
            0 <= i < turns.len() && (#[trigger] turns[i]).status == TurnStatus::Superseded
                ==> exists|j: int| corrects(turns, j, i)
    }
}

/// Every addition keeps a buffer valid.
pub proof fn law_additions_keep_buffer_valid(
    buffer: Buffer,
    turn_type: TurnType,
    text: Seq<char>,
    signal: Option<Seq<char>>,
    now: u128,
)
    requires
        buffer.valid(),
    ensures
        buffer.add_turn(turn_type, text, signal, now).valid(),
{
    let after = buffer.add_turn(turn_type, text, signal, now);
    let old_turns = buffer.turns;
    let turns = after.turns;
    let n = old_turns.len() as int;
    let next = buffer.next_turn(turn_type, text, signal, now);
    assert forall|i: int| 0 <= i < n implies is_named(old_turns[i].id, after.counter) by {
        let k = choose|k: nat| 1 <= k <= buffer.counter && old_turns[i].id == #[trigger] turn_id(k);
        assert(1 <= k <= after.counter && old_turns[i].id == turn_id(k));
    }
    assert(is_named(next.id, after.counter)) by {
        assert(next.id == turn_id(after.counter));
    }
    assert forall|i: int| 0 <= i < n implies (#[trigger] old_turns[i]).id != next.id by {
        let k = choose|k: nat| 1 <= k <= buffer.counter && old_turns[i].id == #[trigger] turn_id(k);
        if old_turns[i].id == next.id {
            law_ids_tell_turns_apart(k, buffer.counter + 1);
        }
    }
    assert forall|i: int| 0 <= i < n implies (#[trigger] turns[i]).id == old_turns[i].id
        && turns[i].turn_type == old_turns[i].turn_type by {}
    assert forall|i: int|
        0 <= i < turns.len() && (#[trigger] turns[i]).status
            == TurnStatus::Superseded implies exists|j: int| corrects(turns, j, i) by {
        if old_turns[i].status == TurnStatus::Superseded {
            let j = choose|j: int| corrects(old_turns, j, i);
            assert(turns[j].id == old_turns[j].id);
            assert(corrects(turns, j, i));
        } else {
            assert(turns[i].corrected_by =~= seq![turns[n].id]);
            assert(corrects(turns, n, i));
        }
    }
}

/// A text that goes on with another, trimmed: after a space, unless it is the first, and only
/// if the other is not blank.
pub open spec fn gone_on_with(text: Seq<char>, more: Seq<char>) -> Seq<char> {
    if is_blank(more) {
        text
    } else if text.len() == 0 {
        trim(more)
    } else {
        text + seq![' '] + trim(more)
    }
}

proof fn lemma_joined_empty(turns: Seq<TurnView>)
    ensures
        joined(parts(turns)).len() == 0 <==> parts(turns).len() == 0,
    decreases turns.len(),
{
    if turns.len() > 0 {
        lemma_joined_empty(turns.drop_last());
        let list = parts(turns);
        if list.len() > parts(turns.drop_last()).len() {
            assert(list.last().len() > 0);
            assert(list.drop_last() =~= parts(turns.drop_last()));
        }
    }
}

/// What the turns come down to is built up turn by turn: nothing without turns; each turn that
/// stands, whoever's it is, goes on with it; and a turn that was superseded, filtered or is a
/// signal leaves it as it was.
pub proof fn law_text_is_built_up(turns: Seq<TurnView>, turn: TurnView, counter: nat)
    ensures
        (Buffer { turns: Seq::empty(), counter }).reconciled().len() == 0,
        (Buffer { turns: turns.push(turn), counter }).reconciled() == if turn.status
            == TurnStatus::Active {
            gone_on_with((Buffer { turns, counter }).reconciled(), turn.text)
        } else {
            (Buffer { turns, counter }).reconciled()
        },
{
    let before = parts(turns);
    let longer = turns.push(turn);
    assert(longer.drop_last() =~= turns);
    lemma_joined_empty(turns);
    if turn.status == TurnStatus::Active && !is_blank(turn.text) {
        let list = parts(longer);
        assert(list =~= before.push(trim(turn.text)));
        assert(list.drop_last() =~= before);
        if before.len() == 0 {
            assert(list.len() == 1);
        } else {
            assert(joined(list) =~= joined(before) + seq![' '] + trim(turn.text));
        }
    }
}

/// The conversation is built up turn by turn: each turn of the user or the assistant that was
/// not filtered adds one message, with the role of its speaker and its text as it was said; no
/// other turn adds any.
pub proof fn law_history_is_built_up(turns: Seq<TurnView>, turn: TurnView, counter: nat)
    ensures
        (Buffer { turns: Seq::empty(), counter }).history().len() == 0,
        ({
            let before = (Buffer { turns, counter }).history();
            let after = (Buffer { turns: turns.push(turn), counter }).history();
            if (turn.turn_type == TurnType::User || turn.turn_type == TurnType::Model)
                && turn.status != TurnStatus::Filtered {
                &&& after.len() == before.len() + 1
                &&& after.drop_last() == before
                &&& after.last().at("content"@) == Json::Text(turn.text)
                &&& turn.turn_type == TurnType::User ==> after.last().at("role"@) == Json::Text(
                    "user"@,
                )
                &&& turn.turn_type == TurnType::Model ==> after.last().at("role"@) == Json::Text(
                    "assistant"@,
                )
            } else {
                after == before
            }
        }),
{
    reveal(Seq::filter);
    reveal_strlit("role");
    reveal_strlit("content");
    assert("role"@.len() == 4 && "content"@.len() == 7);
    let keep = |turn: TurnView| in_history(turn);
    let shape = |turn: TurnView| message(turn);
    let longer = turns.push(turn);
    assert(longer.drop_last() =~= turns);
    assert(Seq::<TurnView>::empty().filter(keep) =~= Seq::empty());
    if in_history(turn) {
        assert(longer.filter(keep) =~= turns.filter(keep).push(turn));
        assert(longer.filter(keep).map_values(shape) =~= turns.filter(keep).map_values(shape).push(
            message(turn),
        ));
        assert((Buffer { turns: longer, counter }).history().drop_last() =~= (Buffer {
            turns,
            counter,
        }).history());
    }
}

/// What the user says goes on with the last turn, after a space, if that is the user's and
/// stands, and keeps all but its text and its end; else it is a turn of its own, as it was
/// said.
pub proof fn law_speech_goes_on(
    buffer: Buffer,
    text: Seq<char>,
    signal: Option<Seq<char>>,
    now: u128,
)
    ensures
        ({
            let after = buffer.add_turn(TurnType::User, text, signal, now);
            let last = buffer.turns.last();
            &&& after.counter == buffer.counter + 1
            &&& if buffer.turns.len() > 0 && last.turn_type == TurnType::User && last.status
                == TurnStatus::Active {
                after.turns == buffer.turns.drop_last().push(
                    TurnView { text: last.text + seq![' '] + text, end_time: now, ..last },
                )
            } else {
                after.turns == buffer.turns.push(
                    TurnView {
                        id: turn_id(buffer.counter + 1),
                        turn_type: TurnType::User,
                        text,
                        start_time: now,
                        end_time: now,
                        status: TurnStatus::Active,
                        corrected_by: Seq::empty(),
                        signal,
                    },
                )
            }
            &&& buffer.added_turn(TurnType::User, text, signal, now) == after.turns.last()
        }),
{
    let last = buffer.turns.last();
    assert(last.text.push(' ') + text =~= last.text + seq![' '] + text);
}

/// Any other turn is always one of its own, as it was said: filtered if it only shows
/// attention, a signal if it cuts in or corrects, and standing if it adds or answers. Only a
/// correction touches the turns before it, and of those only the user's that stood.
pub proof fn law_other_turns_stand_alone(
    buffer: Buffer,
    turn_type: TurnType,
    text: Seq<char>,
    signal: Option<Seq<char>>,
    now: u128,
)
    requires
        turn_type != TurnType::User,
    ensures
        ({
            let after = buffer.add_turn(turn_type, text, signal, now);
            let id = turn_id(buffer.counter + 1);
            &&& after.counter == buffer.counter + 1
            &&& after.turns.len() == buffer.turns.len() + 1
            &&& after.turns.last() == (TurnView {
                id,
                turn_type,
                text,
                start_time: now,
                end_time: now,
                status: match turn_type {
                    TurnType::Backchannel => TurnStatus::Filtered,
                    TurnType::Correction => TurnStatus::Signal,
                    TurnType::Interjection => TurnStatus::Signal,
                    _ => TurnStatus::Active,
                },
                corrected_by: Seq::empty(),
                signal,
            })
            &&& buffer.added_turn(turn_type, text, signal, now) == after.turns.last()
            &&& forall|i: int|
                0 <= i < buffer.turns.len() ==> #[trigger] after.turns[i] == if turn_type
                    == TurnType::Correction && buffer.turns[i].turn_type == TurnType::User
                    && buffer.turns[i].status == TurnStatus::Active {
                    TurnView {
                        status: TurnStatus::Superseded,
                        corrected_by: buffer.turns[i].corrected_by.push(id),
                        ..buffer.turns[i]
                    }
                } else {
                    buffer.turns[i]
                }
        }),
{
}

/// A turn's name is its number in decimal after a fixed word, filled up with zeros to four
/// digits; each further digit comes last.
pub proof fn law_ids_are_numbers(number: nat)
    ensures
        turn_id(number).take(5) == "turn_"@,
        number < 10000 ==> {
            &&& turn_id(number).len() == 9
            &&& turn_id(number)[5] as u32 == 48 + number / 1000
            &&& turn_id(number)[6] as u32 == 48 + number / 100 % 10
            &&& turn_id(number)[7] as u32 == 48 + number / 10 % 10
            &&& turn_id(number)[8] as u32 == 48 + number % 10
        },
        number >= 10000 ==> {
            &&& turn_id(number).drop_last() == turn_id(number / 10)
            &&& turn_id(number).last() as u32 == 48 + number % 10
        },
{
    reveal_strlit("turn_");
    reveal_strlit("000");
    reveal_strlit("00");
    reveal_strlit("0");
    reveal_strlit("");
    reveal_with_fuel(decimal, 4);
    let id = turn_id(number);
    assert(id.take(5) =~= "turn_"@);
    if number >= 10000 {
        assert(id.drop_last() =~= turn_id(number / 10));
    } else if number < 10 {
        assert(number / 10 == 0 && number / 100 == 0 && number / 1000 == 0);
    } else if number < 100 {
        assert(number / 10 < 10 && number / 100 == 0 && number / 1000 == 0);
    } else if number < 1000 {
        assert(number / 10 / 10 == number / 100 && number / 100 < 10 && number / 1000 == 0);
    } else {
        assert(number / 10 / 10 == number / 100 && number / 100 / 10 == number / 1000);
        assert(number / 1000 < 10);
    }
}

/// A backchannel leaves what the turns come down to as it was.
pub proof fn law_backchannel_is_silent(
    buffer: Buffer,
    text: Seq<char>,
    signal: Option<Seq<char>>,
    now: u128,
)
    ensures
        buffer.add_turn(TurnType::Backchannel, text, signal, now).reconciled()
            == buffer.reconciled(),
{
    let after = buffer.add_turn(TurnType::Backchannel, text, signal, now);
    assert(after.turns.drop_last() =~= buffer.turns);
}

/// An interjection is a signal and no part of the thought: it leaves what the turns come
/// down to as it was.
pub proof fn law_interjection_is_stripped(
    buffer: Buffer,
    text: Seq<char>,
    signal: Option<Seq<char>>,
    now: u128,
)
    ensures
        buffer.add_turn(TurnType::Interjection, text, signal, now).reconciled()
            == buffer.reconciled(),
{
    let after = buffer.add_turn(TurnType::Interjection, text, signal, now);
    assert(after.turns.drop_last() =~= buffer.turns);
}

proof fn lemma_superseded_parts(turns: Seq<TurnView>, correction: Seq<char>)
    ensures
        parts(superseded(turns, correction)) == parts(
            turns.filter(|turn: TurnView| !is_open(turn)),
        ),
    decreases turns.len(),
{
    reveal(Seq::filter);
    if turns.len() > 0 {
        let shorter = turns.drop_last();
        lemma_superseded_parts(shorter, correction);
        assert(superseded(turns, correction).drop_last() =~= superseded(shorter, correction));
        let keep = |turn: TurnView| !is_open(turn);
        if !is_open(turns.last()) {
            assert(turns.filter(keep) == shorter.filter(keep).push(turns.last()));
            assert(turns.filter(keep).drop_last() =~= shorter.filter(keep));
        }
    }
}

/// After a correction the turns come down to what stood before it without the user's own
/// turns. The correction is a signal: whatever its text is, none of it is left.
pub proof fn law_correction_is_stripped(
    buffer: Buffer,
    text: Seq<char>,
    signal: Option<Seq<char>>,
    now: u128,
)
    ensures
        buffer.add_turn(TurnType::Correction, text, signal, now).reconciled() == joined(
            parts(buffer.turns.filter(|turn: TurnView| !is_open(turn))),
        ),
{
    let after = buffer.add_turn(TurnType::Correction, text, signal, now);
    let id = turn_id(buffer.counter + 1);
    assert(after.turns.drop_last() =~= superseded(buffer.turns, id));
    lemma_superseded_parts(buffer.turns, id);
}

/// After a correction none of the user's turns stands.
pub proof fn law_correction_closes_turns(
    buffer: Buffer,
    text: Seq<char>,
    signal: Option<Seq<char>>,
    now: u128,
)
    ensures
        ({
            let after = buffer.add_turn(TurnType::Correction, text, signal, now);
            forall|i: int| 0 <= i < after.turns.len() ==> !is_open(#[trigger] after.turns[i])
        }),
{
}

/// An addition neither drops nor reorders turns. It leaves the turns before the last as
/// they are, but for a correction, which supersedes the user's turns that stood.
pub proof fn law_additions_keep_turns(
    buffer: Buffer,
    turn_type: TurnType,
    text: Seq<char>,
    signal: Option<Seq<char>>,
    now: u128,
)
    ensures
        ({
            let after = buffer.add_turn(turn_type, text, signal, now);
            &&& after.turns.len() >= buffer.turns.len()
            &&& forall|i: int|
                0 <= i < buffer.turns.len() - 1 && (turn_type != TurnType::Correction || !is_open(
                    buffer.turns[i],
                )) ==> #[trigger] after.turns[i] == buffer.turns[i]
            &&& forall|i: int|
                0 <= i < buffer.turns.len() ==> {
                    &&& (#[trigger] after.turns[i]).id == buffer.turns[i].id
                    &&& after.turns[i].turn_type == buffer.turns[i].turn_type
                    &&& after.turns[i].start_time == buffer.turns[i].start_time
                    &&& after.turns[i].signal == buffer.turns[i].signal
                    &&& after.turns[i].status == buffer.turns[i].status || (turn_type
                        == TurnType::Correction && after.turns[i].status == TurnStatus::Superseded)
                }
        }),
{
}

/// A buffer after the user said these texts one after the other, at these times.
pub open spec fn after_speech(buffer: Buffer, said: Seq<Seq<char>>, times: Seq<u128>) -> Buffer
    decreases said.len(),
{
    if said.len() == 0 {
        buffer
    } else {
        after_speech(buffer, said.drop_last(), times.drop_last()).add_turn(
            TurnType::User,
            said.last(),
            None,
            times.last(),
        )
    }
}

/// What the user says piece by piece becomes one turn with all the pieces, from the time of
/// the first to the time of the last, and the buffer comes down to that turn's text.
pub proof fn law_pieces_make_one_turn(said: Seq<Seq<char>>, times: Seq<u128>)
    requires
        said.len() > 0,
        times.len() == said.len(),
    ensures
        ({
            let after = after_speech(Buffer::empty(), said, times);
            &&& after.turns.len() == 1
            &&& is_open(after.turns[0])
            &&& after.turns[0].text == joined(said)
            &&& after.turns[0].start_time == times.first()
            &&& after.turns[0].end_time == times.last()
            &&& after.reconciled() == trim(joined(said))
        }),
    decreases said.len(),
{
    let after = after_speech(Buffer::empty(), said, times);
    let before = after_speech(Buffer::empty(), said.drop_last(), times.drop_last());
    if said.len() > 1 {
        law_pieces_make_one_turn(said.drop_last(), times.drop_last());
        assert(before.merges(TurnType::User));
        assert(after.turns =~= seq![before.longer_turn(said.last(), times.last())]);
    } else {
        assert(before == Buffer::empty());
        assert(after.turns =~= seq![before.next_turn(TurnType::User, said[0], None, times[0])]);
    }
    assert(after.turns.drop_last() =~= Seq::empty());
    assert(parts(after.turns.drop_last()) =~= Seq::empty());
    let text = trim(after.turns[0].text);
    if text.len() > 0 {
        assert(parts(after.turns) =~= seq![text]);
    } else {
        assert(parts(after.turns) =~= Seq::empty());
        assert(text =~= Seq::empty());
    }
}

} // verus!
