use vstd::prelude::*;
use crate::random::gen_range;

verus! {

/// Operands are drawn from `1..NUM_LIMIT`.
pub const NUM_LIMIT: i32 = 20;

#[derive(Clone, Copy, Debug, PartialEq, Eq, Structural)]
pub enum Operation {
    Plus,
    Sub,
}

impl Operation {
    /// The operator's symbol.
    pub fn value(&self) -> (r: char)
        ensures
            r == (match *self {
                Operation::Plus => '+',
                Operation::Sub => '-',
            }),
    {
        match self {
            Operation::Plus => '+',
            Operation::Sub => '-',
        }
    }
}

/// The character of the decimal digit `d`.
pub open spec fn digit_char(d: nat) -> char {
    if d == 0 {
        '0'
    } else if d == 1 {
        '1'
    } else if d == 2 {
        '2'
    } else if d == 3 {
        '3'
    } else if d == 4 {
        '4'
    } else if d == 5 {
        '5'
    } else if d == 6 {
        '6'
    } else if d == 7 {
        '7'
    } else if d == 8 {
        '8'
    } else {
        '9'
    }
}

/// Decimal digits of `n`, most significant first, with no leading zero.
pub open spec fn digits_text(n: nat) -> Seq<char>
    decreases n,
{
    if n < 10 {
        seq![digit_char(n)]
    } else {
        digits_text(n / 10).push(digit_char(n % 10))
    }
}

/// The decimal text of `n`, with a leading `-` when it is negative.
pub open spec fn decimal_text(n: int) -> Seq<char> {
    if n < 0 {
        seq!['-'] + digits_text((-n) as nat)
    } else {
        digits_text(n as nat)
    }
}

pub open spec fn apply(a: int, op: Operation, b: int) -> int {
    match op {
        Operation::Plus => a + b,
        Operation::Sub => a - b,
    }
}

/// The character of the decimal digit `d`.
pub fn digit_to_char(d: u8) -> (c: char)
    requires
        d < 10,
    ensures
        c == digit_char(d as nat),
{
    if d == 0 {
        '0'
    } else if d == 1 {
        '1'
    } else if d == 2 {
        '2'
    } else if d == 3 {
        '3'
    } else if d == 4 {
        '4'
    } else if d == 5 {
        '5'
    } else if d == 6 {
        '6'
    } else if d == 7 {
        '7'
    } else if d == 8 {
        '8'
    } else {
        '9'
    }
}

fn push_digits(n: u64, out: &mut Vec<char>)
    ensures
        final(out)@ == old(out)@ + digits_text(n as nat),
    decreases n,
{
    if n < 10 {
        out.push(digit_to_char(n as u8));
    } else {
        push_digits(n / 10, out);
        out.push(digit_to_char((n % 10) as u8));
    }
}

/// The decimal text of `n`.
pub fn decimal_text_of(n: i32) -> (r: Vec<char>)
    ensures
        r@ == decimal_text(n as int),
{
    let mut out: Vec<char> = Vec::new();
    if n < 0 {
        out.push('-');
        push_digits((-(n as i64)) as u64, &mut out);
    } else {
        push_digits(n as u64, &mut out);
    }
    assert(out@ =~= decimal_text(n as int));
    out
}

/// A quiz question, filled in one part at a time: first operand, operator,
/// second operand; `result` holds the answer's decimal text once all three
/// are set.
pub struct Calc {
    pub a: Option<i32>,
    pub b: Option<i32>,
    pub operation: Option<Operation>,
    pub result: Vec<char>,
}

impl Calc {
    /// Parts are set in order, operands lie in `1..NUM_LIMIT` with the second
    /// at most the first, and the result is known once the question is whole.
    pub open spec fn wf(&self) -> bool {
        &&& self.a is None ==> self.operation is None
        &&& self.operation is None ==> self.b is None
        &&& self.a matches Some(a) ==> 1 <= a < NUM_LIMIT
        &&& self.b matches Some(b) ==> 1 <= b <= self.a->0
        &&& self.b is None ==> self.result@.len() == 0
        &&& self.b matches Some(b) ==> self.result@ == decimal_text(
            apply(self.a->0 as int, self.operation->0, b as int),
        )
    }

    /// An empty question.
    pub fn new() -> (c: Calc)
        ensures
            c.wf(),
            c.a is None,
            c.b is None,
            c.operation is None,
            c.result@.len() == 0,
    {
        Calc { a: None, b: None, operation: None, result: Vec::new() }
    }

    /// Whether `answer` is exactly the result's text.
    pub fn equals_result(&self, answer: &Vec<char>) -> (r: bool)
        ensures
            r == (self.result@ == answer@),
    {
        if self.result.len() != answer.len() {
            return false;
        }
        let mut i: usize = 0;
        while i < answer.len()
            invariant
                i <= answer@.len() == self.result@.len(),
                forall|j: int| 0 <= j < i ==> self.result@[j] == answer@[j],
            decreases answer@.len() - i,
        {
            if self.result[i] != answer[i] {
                return false;
            }
            i = i + 1;
        }
        assert(self.result@ =~= answer@);
        true
    }

    /// Whether all three parts are set.
    pub fn not_empty(&self) -> (r: bool)
        ensures
            r == (self.a is Some && self.operation is Some && self.b is Some),
    {
        self.a.is_some() && self.operation.is_some() && self.b.is_some()
    }

    /// Works out the result's decimal text from the three parts.
    pub fn calculate(&mut self)
        requires
            old(self).a is Some,
            old(self).b is Some,
            old(self).operation is Some,
            i32::MIN <= apply(old(self).a->0 as int, old(self).operation->0, old(self).b->0 as int)
                <= i32::MAX,
        ensures
            final(self).a == old(self).a,
            final(self).b == old(self).b,
            final(self).operation == old(self).operation,
            final(self).result@ == decimal_text(
                apply(old(self).a->0 as int, old(self).operation->0, old(self).b->0 as int),
            ),
    {
        let a = self.a.unwrap();
        let b = self.b.unwrap();
        let n = match self.operation.unwrap() {
            Operation::Plus => a + b,
            Operation::Sub => a - b,
        };
        self.result = decimal_text_of(n);
    }

    /// Fills in the next missing part from the number `draw`: the first
    /// operand is `draw` itself, the operator is `Plus` for an even draw and
    /// `Sub` for an odd one, and the second operand is `draw`, after which
    /// the result is worked out. Returns false, changing nothing, when the
    /// question is already whole.
    pub fn fill_next(&mut self, draw: i32) -> (filled: bool)
        requires
            old(self).wf(),
            old(self).a is None ==> 1 <= draw < NUM_LIMIT,
            old(self).a is Some && old(self).operation is Some && old(self).b is None ==> 1 <= draw
                <= old(self).a->0,
        ensures
            final(self).wf(),
            filled == !(old(self).a is Some && old(self).operation is Some && old(self).b is Some),
            !filled ==> final(self).a == old(self).a && final(self).b == old(self).b
                && final(self).operation == old(self).operation && final(self).result@ == old(self).result@,
            old(self).a is None ==> final(self).a == Some(draw) && final(self).operation is None,
            old(self).a is Some && old(self).operation is None ==> final(self).a == old(self).a
                && final(self).operation == Some(if draw % 2 == 0 {
                    Operation::Plus
                } else {
                    Operation::Sub
                }) && final(self).b is None,
            old(self).a is Some && old(self).operation is Some && old(self).b is None ==> final(self).a
                == old(self).a && final(self).operation == old(self).operation && final(self).b == Some(
                draw,
            ),
    {
        if self.a.is_none() {
            self.a = Some(draw);
            true
        } else if self.operation.is_none() {
            self.operation = Some(if draw % 2 == 0 { Operation::Plus } else { Operation::Sub });
            true
        } else if self.b.is_none() {
            self.b = Some(draw);
            self.calculate();
            true
        } else {
            false
        }
    }

    /// Fills in the next missing part at random, as `fill_next` does with a
    /// draw from `1..NUM_LIMIT`, from `0..100`, or from `1..a` (just 1 when
    /// `a` is 1) for the first operand, the operator and the second operand.
    pub fn fill_random(&mut self) -> (filled: bool)
        requires
            old(self).wf(),
        ensures
            final(self).wf(),
            filled == !(old(self).a is Some && old(self).operation is Some && old(self).b is Some),
            !filled ==> final(self).a == old(self).a && final(self).b == old(self).b
                && final(self).operation == old(self).operation && final(self).result@ == old(self).result@,
            old(self).a is Some ==> final(self).a == old(self).a,
            old(self).operation is Some ==> final(self).operation == old(self).operation,
            old(self).a is None ==> final(self).a is Some && final(self).operation is None,
            old(self).a is Some && old(self).operation is None ==> final(self).operation is Some
                && final(self).b is None,
            old(self).operation is Some && old(self).b is None ==> final(self).b is Some,
    {
        let draw = if self.a.is_none() {
            gen_range(1, NUM_LIMIT)
        } else if self.operation.is_none() {
            gen_range(0, 100)
        } else if self.b.is_none() {
            gen_range(1, self.a.unwrap())
        } else {
            0
        };
        self.fill_next(draw)
    }
}

proof fn lemma_digits_text_nonempty(n: nat)
    ensures
        digits_text(n).len() >= 1,
    decreases n,
{
    if n >= 10 {
        lemma_digits_text_nonempty(n / 10);
    }
}

/// A quiz round: the question and the digits typed so far.
pub struct Quiz {
    pub calc: Calc,
    pub answer: Vec<char>,
    pub game_over: bool,
}

impl Quiz {
    /// Digits are typed only once the question is whole, and the round is
    /// over once the answer is as long as the result.
    pub open spec fn wf(&self) -> bool {
        &&& self.calc.wf()
        &&& self.answer@.len() <= self.calc.result@.len()
        &&& self.answer@.len() > 0 ==> self.calc.b is Some
        &&& self.game_over == (self.calc.b is Some && self.answer@.len() == self.calc.result@.len())
    }

    pub fn new() -> (q: Quiz)
        ensures
            q.wf(),
            q.calc.a is None,
            q.answer@.len() == 0,
            !q.game_over,
    {
        Quiz { calc: Calc::new(), answer: Vec::new(), game_over: false }
    }

    /// Fills in the next part of the question at random, as
    /// `Calc::fill_random` does, while the round is not over. Returns false,
    /// changing nothing, when the round is over or the question is whole.
    pub fn next_part(&mut self) -> (filled: bool)
        requires
            old(self).wf(),
        ensures
            final(self).wf(),
            final(self).answer@ == old(self).answer@,
            final(self).game_over == old(self).game_over,
            filled == (!old(self).game_over && !(old(self).calc.a is Some
                && old(self).calc.operation is Some && old(self).calc.b is Some)),
            !filled ==> final(self).calc.a == old(self).calc.a && final(self).calc.b
                == old(self).calc.b && final(self).calc.operation == old(self).calc.operation
                && final(self).calc.result@ == old(self).calc.result@,
            filled && old(self).calc.a is None ==> final(self).calc.a is Some
                && final(self).calc.operation is None,
            filled && old(self).calc.a is Some && old(self).calc.operation is None
                ==> final(self).calc.a == old(self).calc.a && final(self).calc.operation is Some
                && final(self).calc.b is None,
            filled && old(self).calc.operation is Some ==> final(self).calc.a == old(self).calc.a
                && final(self).calc.operation == old(self).calc.operation
                && final(self).calc.b is Some,
    {
        if self.game_over {
            return false;
        }
        let filled = self.calc.fill_random();
        proof {
            if self.calc.b is Some {
                let n = apply(self.calc.a->0 as int, self.calc.operation->0, self.calc.b->0 as int);
                lemma_digits_text_nonempty(n as nat);
                lemma_digits_text_nonempty((-n) as nat);
            }
        }
        filled
    }

    /// A digit typed by the player. It counts only once the question is
    /// whole and before the round is over; the round is over once the answer
    /// has as many characters as the result.
    pub fn type_digit(&mut self, d: u8) -> (taken: bool)
        requires
            old(self).wf(),
            d < 10,
        ensures
            final(self).wf(),
            final(self).calc == old(self).calc,
            taken == (old(self).calc.b is Some && !old(self).game_over),
            final(self).answer@ == if taken {
                old(self).answer@.push(digit_char(d as nat))
            } else {
                old(self).answer@
            },
    {
        if self.calc.not_empty() && !self.game_over {
            self.answer.push(digit_to_char(d));
            self.game_over = self.answer.len() == self.calc.result.len();
            true
        } else {
            false
        }
    }

    /// Whether the round is over with the right answer.
    pub fn is_correct(&self) -> (r: bool)
        ensures
            r == (self.game_over && self.answer@ == self.calc.result@),
    {
        self.game_over && self.calc.equals_result(&self.answer)
    }
}

} // verus!
