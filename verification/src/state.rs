//! The shared application state: a counter and a string-encoded increment
//! amount.
//!
//! The state is the single source of truth for domain data. It is owned by
//! one place and mutated only through its accessor methods, each of which
//! reads or writes the record and returns before anything else runs; under
//! the single cooperative loop that drives the application this serializes
//! all access, which is the discipline a lock would otherwise enforce.

use vstd::prelude::*;
use vstd::string::*;
use crate::num::{amount_value, dec_seq_of, dec_value, digit_val, i32_to_string, parse_amount};

verus! {

/// Mathematical model of the application state.
pub ghost struct StateModel {
    pub count: int,
    pub amount: Seq<char>,
}

/// Clamps a value into `i32` range: saturating arithmetic never leaves it.
pub open spec fn clamp_i32(v: int) -> int {
    if v < i32::MIN as int {
        i32::MIN as int
    } else if v > i32::MAX as int {
        i32::MAX as int
    } else {
        v
    }
}

pub open spec fn set_count_spec(m: StateModel, count: int) -> StateModel {
    StateModel { count, amount: m.amount }
}

pub open spec fn set_amount_spec(m: StateModel, amount: Seq<char>) -> StateModel {
    StateModel { count: m.count, amount }
}

/// Adds the current parsed amount to the counter, saturating.
pub open spec fn increment_count_spec(m: StateModel) -> StateModel {
    StateModel { count: clamp_i32(m.count + amount_value(m.amount)), amount: m.amount }
}

/// Subtracts the current parsed amount from the counter, saturating.
pub open spec fn decrement_count_spec(m: StateModel) -> StateModel {
    StateModel { count: clamp_i32(m.count - amount_value(m.amount)), amount: m.amount }
}

/// Increases the parsed amount by one and re-stringifies it.
pub open spec fn increment_amount_spec(m: StateModel) -> StateModel {
    StateModel { count: m.count, amount: dec_seq_of(clamp_i32(amount_value(m.amount) + 1)) }
}

/// Decreases the parsed amount by one, refusing to go below one.
pub open spec fn decrement_amount_spec(m: StateModel) -> StateModel {
    if amount_value(m.amount) > 1 {
        StateModel { count: m.count, amount: dec_seq_of(amount_value(m.amount) - 1) }
    } else {
        m
    }
}

/// The counter value and increment amount, shared by every component.
pub struct AppState {
    pub count: i32,
    pub amount: String,
}

impl View for AppState {
    type V = StateModel;

    open spec fn view(&self) -> StateModel {
        StateModel { count: self.count as int, amount: self.amount@ }
    }
}

impl Default for AppState {
    /// The initial state: a count of zero and an amount of `"1"`.
    fn default() -> (r: Self)
        ensures
            r@.count == 0,
            r@.amount =~= seq!['1'],
    {
        let r = AppState { count: 0, amount: String::from_str("1") };
        proof {
            reveal_strlit("1");
            assert(r.amount@ =~= seq!['1']);
        }
        r
    }
}

impl AppState {
    pub fn new() -> (r: Self)
        ensures
            r@.count == 0,
            r@.amount =~= seq!['1'],
    {
        Self::default()
    }

    pub fn get_count(&self) -> (r: i32)
        ensures
            r as int == self@.count,
    {
        self.count
    }

    pub fn set_count(&mut self, count: i32)
        ensures
            final(self)@ == set_count_spec(old(self)@, count as int),
    {
        self.count = count;
    }

    pub fn get_amount(&self) -> (r: String)
        ensures
            r@ == self@.amount,
    {
        self.amount.clone()
    }

    pub fn set_amount(&mut self, amount: String)
        ensures
            final(self)@ == set_amount_spec(old(self)@, amount@),
    {
        self.amount = amount;
    }

    pub fn increment_count(&mut self)
        ensures
            final(self)@ == increment_count_spec(old(self)@),
    {
        let amount = parse_amount(self.amount.as_str());
        let sum: i64 = self.count as i64 + amount as i64;
        self.count = saturate_to_i32(sum);
    }

    pub fn decrement_count(&mut self)
        ensures
            final(self)@ == decrement_count_spec(old(self)@),
    {
        let amount = parse_amount(self.amount.as_str());
        let diff: i64 = self.count as i64 - amount as i64;
        self.count = saturate_to_i32(diff);
    }

    pub fn increment_amount(&mut self)
        ensures
            final(self)@ == increment_amount_spec(old(self)@),
    {
        let current = parse_amount(self.amount.as_str());
        let sum: i64 = current as i64 + 1;
        self.amount = i32_to_string(saturate_to_i32(sum));
    }

    pub fn decrement_amount(&mut self)
        ensures
            final(self)@ == decrement_amount_spec(old(self)@),
    {
        let current = parse_amount(self.amount.as_str());
        if current > 1 {
            self.amount = i32_to_string(current - 1);
        }
    }
}

/// Clamps an `i64` into `i32` range.
fn saturate_to_i32(v: i64) -> (r: i32)
    ensures
        r as int == clamp_i32(v as int),
{
    if v > 2147483647 {
        2147483647
    } else if v < -2147483648 {
        -2147483648
    } else {
        v as i32
    }
}

/// Saturating count arithmetic never leaves the representable range: after
/// an increment or a decrement the count is still an `i32`, and the amount
/// text is untouched. Since every state satisfies the bound, any sequence
/// of increments and decrements keeps it.
pub proof fn lemma_count_saturates(m: StateModel)
    ensures
        i32::MIN as int <= increment_count_spec(m).count <= i32::MAX as int,
        i32::MIN as int <= decrement_count_spec(m).count <= i32::MAX as int,
        increment_count_spec(m).amount == m.amount,
        decrement_count_spec(m).amount == m.amount,
{
}

/// The state after a sequence of counter adjustments, each `true` an
/// increment and each `false` a decrement.
pub open spec fn apply_count_ops(m: StateModel, ops: Seq<bool>) -> StateModel
    decreases ops.len(),
{
    if ops.len() == 0 {
        m
    } else {
        apply_count_ops(
            if ops[0] {
                increment_count_spec(m)
            } else {
                decrement_count_spec(m)
            },
            ops.skip(1),
        )
    }
}

/// For every sequence of increments and decrements, the count never
/// leaves the representable range — it saturates instead of wrapping —
/// and the amount text is untouched throughout.
pub proof fn lemma_count_saturates_for_all_sequences(m: StateModel, ops: Seq<bool>)
    requires
        i32::MIN as int <= m.count <= i32::MAX as int,
    ensures
        i32::MIN as int <= apply_count_ops(m, ops).count <= i32::MAX as int,
        apply_count_ops(m, ops).amount == m.amount,
    decreases ops.len(),
{
    if ops.len() > 0 {
        let m1 = if ops[0] {
            increment_count_spec(m)
        } else {
            decrement_count_spec(m)
        };
        lemma_count_saturates_for_all_sequences(m1, ops.skip(1));
    }
}

/// Decrementing the amount is idempotent at the floor: once the amount
/// reads as one (the text `"1"` in particular), decrementing changes
/// nothing.
pub proof fn lemma_decrement_amount_floor(m: StateModel)
    requires
        amount_value(m.amount) <= 1,
    ensures
        decrement_amount_spec(m) == m,
{
}

/// The amount text `"1"` reads as the value one.
pub proof fn lemma_amount_one()
    ensures
        amount_value(seq!['1']) == 1,
{
    let s = seq!['1'];
    assert(s.len() == 1 && s.last() == '1' && s[0] == '1');
    assert(s.drop_last() =~= Seq::<char>::empty());
    assert(dec_value(s.drop_last()) == 0);
    assert(dec_value(s) == dec_value(s.drop_last()) * 10 + digit_val(s.last()));
    assert(dec_value(s) == 1);
}

/// Setting the amount and reading it back yields the very string that was
/// set, for any string.
pub proof fn lemma_amount_round_trip_store(m: StateModel, x: Seq<char>)
    ensures
        set_amount_spec(m, x).amount == x,
        set_amount_spec(m, x).count == m.count,
{
}

/// Incrementing the count uses the amount current at the call, not a cached
/// one: after the amount is set to `x`, an increment adds exactly the value
/// of `x`.
pub proof fn lemma_increment_uses_current_amount(m: StateModel, x: Seq<char>)
    ensures
        increment_count_spec(set_amount_spec(m, x)).count == clamp_i32(
            m.count + amount_value(x),
        ),
{
}

} // verus!
