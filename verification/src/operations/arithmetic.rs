//! Stack and arithmetic operators, and number literals.
use vstd::prelude::*;
use crate::interpreter::droplet::Droplet;
use crate::interpreter::stack::DataStack;
use crate::types::bigint::{TubularBigInt, trunc_div, trunc_rem};
use crate::types::error::{ExecError, InitError, InterpreterError};

verus! {

/// Symbols handled by `process_stack_operation`.
pub open spec fn arithmetic_symbol(c: char) -> bool {
    ||| c == ':' || c == ';' || c == 'd' || c == 'A' || c == 'S' || c == 'M' || c == 'D'
    ||| c == '=' || c == '<' || c == '>' || c == '%' || c == '+' || c == '~'
}

/// The value popping `s` gives: its top, or zero when it is empty.
pub open spec fn top_or_zero(s: Seq<int>) -> int {
    if s.len() == 0 { 0 } else { s.last() }
}

/// `s` after one pop: without its top, or unchanged when it is empty.
pub open spec fn after_pop(s: Seq<int>) -> Seq<int> {
    if s.len() == 0 { s } else { s.drop_last() }
}

/// The result of a binary operator on `a` (popped second) and `b` (popped first).
pub open spec fn binary_result(op: char, a: int, b: int) -> int {
    if op == 'A' {
        a + b
    } else if op == 'S' {
        a - b
    } else if op == 'M' {
        a * b
    } else if op == 'D' {
        if b == 0 { 0 } else { trunc_div(a, b) }
    } else if op == '=' {
        if a == b { 1 } else { 0 }
    } else if op == '<' {
        if a < b { 1 } else { 0 }
    } else if op == '>' {
        if a > b { 1 } else { 0 }
    } else {
        if b == 0 { 0 } else { trunc_rem(a, b) }
    }
}

/// Whether `op` pops two values and combines them.
pub open spec fn binary_symbol(op: char) -> bool {
    op == 'A' || op == 'S' || op == 'M' || op == 'D' || op == '=' || op == '<' || op == '>' || op == '%'
}

/// The droplet value after operator `op`, given droplet value `v` and stack `s`.
pub open spec fn op_value(op: char, v: int, s: Seq<int>) -> int {
    if op == ';' {
        top_or_zero(s)
    } else if binary_symbol(op) {
        binary_result(op, top_or_zero(after_pop(s)), top_or_zero(s))
    } else if op == '+' {
        v + 1
    } else if op == '~' {
        v - 1
    } else {
        v
    }
}

/// The stack after operator `op`, given droplet value `v` and stack `s`.
pub open spec fn op_stack(op: char, v: int, s: Seq<int>) -> Seq<int> {
    if op == ':' {
        s.push(v)
    } else if op == ';' {
        after_pop(s)
    } else if op == 'd' {
        s.push(top_or_zero(s))
    } else if binary_symbol(op) {
        after_pop(after_pop(s))
    } else {
        s
    }
}

/// The largest depth a stack has had after a push onto a stack of length `len`.
pub open spec fn depth_after_push(max_depth: int, len: int) -> int {
    if max_depth >= len + 1 { max_depth } else { len + 1 }
}

/// The recorded maximum depth after operator `op` (only pushes raise it).
pub open spec fn op_max_depth(op: char, max_depth: int, len: int) -> int {
    if op == ':' || op == 'd' { depth_after_push(max_depth, len) } else { max_depth }
}

/// Two droplets that differ at most in their values.
pub open spec fn same_but_value(a: Droplet, b: Droplet) -> bool {
    &&& a.id == b.id
    &&& a.position == b.position
    &&& a.direction == b.direction
    &&& a.active == b.active
}

/// Stack and arithmetic operations.
pub struct ArithmeticOperations;

impl ArithmeticOperations {
    /// Sets the droplet's value to the digit `literal`; any other character is refused.
    pub fn process_numeric_literal(droplet: &mut Droplet, literal: char) -> (r: Result<(), InterpreterError>)
        ensures
            same_but_value(*final(droplet), *old(droplet)),
            '0' <= literal <= '9' ==> r is Ok && final(droplet).value@ == literal as int - '0' as int,
            !('0' <= literal <= '9') ==> r == Err::<(), InterpreterError>(
                InterpreterError::Initialization(InitError::InvalidCharacter(literal, old(droplet).position)),
            ) && final(droplet).value@ == old(droplet).value@,
    {
        if !('0' <= literal && literal <= '9') {
            return Err(InterpreterError::Initialization(InitError::InvalidCharacter(literal, droplet.position)));
        }
        let digit: u32 = (literal as u32) - ('0' as u32);
        droplet.set_value(TubularBigInt::new(digit as i64));
        Ok(())
    }

    /// Applies operator `operation` to the droplet and the stack; a symbol that is not
    /// a stack or arithmetic operator is refused and changes nothing.
    pub fn process_stack_operation(operation: char, droplet: &mut Droplet, stack: &mut DataStack) -> (r: Result<(), InterpreterError>)
        ensures
            same_but_value(*final(droplet), *old(droplet)),
            arithmetic_symbol(operation) ==> {
                &&& r is Ok
                &&& final(droplet).value@ == op_value(operation, old(droplet).value@, old(stack)@)
                &&& final(stack)@ == op_stack(operation, old(droplet).value@, old(stack)@)
                &&& final(stack).max_depth == op_max_depth(operation, old(stack).max_depth as int, old(stack)@.len() as int)
            },
            !arithmetic_symbol(operation) ==> {
                &&& r == Err::<(), InterpreterError>(InterpreterError::Execution(ExecError::InvalidOperation(operation)))
                &&& final(droplet).value@ == old(droplet).value@
                &&& final(stack)@ == old(stack)@
                &&& final(stack).max_depth == old(stack).max_depth
            },
    {
        match operation {
            ':' => Self::push(droplet, stack),
            ';' => Self::pop(droplet, stack),
            'd' => Self::duplicate(stack),
            'A' => Self::add(droplet, stack),
            'S' => Self::subtract(droplet, stack),
            'M' => Self::multiply(droplet, stack),
            'D' => Self::divide(droplet, stack),
            '=' => Self::equals(droplet, stack),
            '<' => Self::less_than(droplet, stack),
            '>' => Self::greater_than(droplet, stack),
            '%' => Self::modulo(droplet, stack),
            '+' => Self::increment(droplet),
            '~' => Self::decrement(droplet),
            _ => Err(InterpreterError::Execution(ExecError::InvalidOperation(operation))),
        }
    }

    /// Push (`:`): pushes a copy of the droplet's value.
    pub fn push(droplet: &Droplet, stack: &mut DataStack) -> (r: Result<(), InterpreterError>)
        ensures
            r is Ok,
            final(stack)@ == old(stack)@.push(droplet.value@),
            final(stack).max_depth == depth_after_push(old(stack).max_depth as int, old(stack)@.len() as int),
    {
        stack.push(droplet.value.clone());
        Ok(())
    }

    /// Pop (`;`): the droplet takes the popped value (zero from an empty stack).
    pub fn pop(droplet: &mut Droplet, stack: &mut DataStack) -> (r: Result<(), InterpreterError>)
        ensures
            r is Ok,
            same_but_value(*final(droplet), *old(droplet)),
            final(droplet).value@ == top_or_zero(old(stack)@),
            final(stack)@ == after_pop(old(stack)@),
            final(stack).max_depth == old(stack).max_depth,
    {
        let v = stack.pop_or_zero();
        droplet.set_value(v);
        Ok(())
    }

    /// Duplicate (`d`): pushes a copy of the top value (zero onto an empty stack).
    pub fn duplicate(stack: &mut DataStack) -> (r: Result<(), InterpreterError>)
        ensures
            r is Ok,
            final(stack)@ == old(stack)@.push(top_or_zero(old(stack)@)),
            final(stack).max_depth == depth_after_push(old(stack).max_depth as int, old(stack)@.len() as int),
    {
        if stack.is_empty() {
            stack.push(TubularBigInt::zero());
        } else {
            let top = stack.peek();
            stack.push(top);
        }
        Ok(())
    }

    /// Pops `b` then `a` (zero for each missing value).
    fn pop_two(stack: &mut DataStack) -> (r: (TubularBigInt, TubularBigInt))
        ensures
            r.0@ == top_or_zero(after_pop(old(stack)@)),
            r.1@ == top_or_zero(old(stack)@),
            final(stack)@ == after_pop(after_pop(old(stack)@)),
            final(stack).max_depth == old(stack).max_depth,
    {
        let b = stack.pop_or_zero();
        let a = stack.pop_or_zero();
        (a, b)
    }

    /// Add (`A`): the droplet takes `a + b`.
    pub fn add(droplet: &mut Droplet, stack: &mut DataStack) -> (r: Result<(), InterpreterError>)
        ensures
            r is Ok,
            same_but_value(*final(droplet), *old(droplet)),
            final(droplet).value@ == binary_result('A', top_or_zero(after_pop(old(stack)@)), top_or_zero(old(stack)@)),
            final(stack)@ == after_pop(after_pop(old(stack)@)),
            final(stack).max_depth == old(stack).max_depth,
    {
        let (a, b) = Self::pop_two(stack);
        droplet.set_value(a.plus(&b));
        Ok(())
    }

    /// Subtract (`S`): the droplet takes `a - b`.
    pub fn subtract(droplet: &mut Droplet, stack: &mut DataStack) -> (r: Result<(), InterpreterError>)
        ensures
            r is Ok,
            same_but_value(*final(droplet), *old(droplet)),
            final(droplet).value@ == binary_result('S', top_or_zero(after_pop(old(stack)@)), top_or_zero(old(stack)@)),
            final(stack)@ == after_pop(after_pop(old(stack)@)),
            final(stack).max_depth == old(stack).max_depth,
    {
        let (a, b) = Self::pop_two(stack);
        droplet.set_value(a.minus(&b));
        Ok(())
    }

    /// Multiply (`M`): the droplet takes `a * b`.
    pub fn multiply(droplet: &mut Droplet, stack: &mut DataStack) -> (r: Result<(), InterpreterError>)
        ensures
            r is Ok,
            same_but_value(*final(droplet), *old(droplet)),
            final(droplet).value@ == binary_result('M', top_or_zero(after_pop(old(stack)@)), top_or_zero(old(stack)@)),
            final(stack)@ == after_pop(after_pop(old(stack)@)),
            final(stack).max_depth == old(stack).max_depth,
    {
        let (a, b) = Self::pop_two(stack);
        droplet.set_value(a.times(&b));
        Ok(())
    }

    /// Divide (`D`): the droplet takes `a / b` rounded toward zero, or zero when `b` is zero.
    pub fn divide(droplet: &mut Droplet, stack: &mut DataStack) -> (r: Result<(), InterpreterError>)
        ensures
            r is Ok,
            same_but_value(*final(droplet), *old(droplet)),
            final(droplet).value@ == binary_result('D', top_or_zero(after_pop(old(stack)@)), top_or_zero(old(stack)@)),
            old(stack)@.len() >= 2 ==> ({
                let a = old(stack)@[old(stack)@.len() - 2];
                let b = old(stack)@[old(stack)@.len() - 1];
                let q = final(droplet).value@;
                &&& b == 0 ==> q == 0
                &&& a >= 0 && b > 0 ==> q == a / b
                &&& a >= 0 && b < 0 ==> q == -(a / (-b))
                &&& a < 0 && b > 0 ==> q == -((-a) / b)
                &&& a < 0 && b < 0 ==> q == (-a) / (-b)
            }),
            final(stack)@ == after_pop(after_pop(old(stack)@)),
            final(stack).max_depth == old(stack).max_depth,
    {
        let (a, b) = Self::pop_two(stack);
        let result = if b.is_zero() { TubularBigInt::zero() } else { a.safe_div(&b) };
        droplet.set_value(result);
        Ok(())
    }

    /// Equals (`=`): the droplet takes 1 when `a == b`, else 0.
    pub fn equals(droplet: &mut Droplet, stack: &mut DataStack) -> (r: Result<(), InterpreterError>)
        ensures
            r is Ok,
            same_but_value(*final(droplet), *old(droplet)),
            final(droplet).value@ == binary_result('=', top_or_zero(after_pop(old(stack)@)), top_or_zero(old(stack)@)),
            final(stack)@ == after_pop(after_pop(old(stack)@)),
            final(stack).max_depth == old(stack).max_depth,
    {
        let (a, b) = Self::pop_two(stack);
        let result = if a == b { TubularBigInt::one() } else { TubularBigInt::zero() };
        droplet.set_value(result);
        Ok(())
    }

    /// Less than (`<`): the droplet takes 1 when `a < b`, else 0.
    pub fn less_than(droplet: &mut Droplet, stack: &mut DataStack) -> (r: Result<(), InterpreterError>)
        ensures
            r is Ok,
            same_but_value(*final(droplet), *old(droplet)),
            final(droplet).value@ == binary_result('<', top_or_zero(after_pop(old(stack)@)), top_or_zero(old(stack)@)),
            final(stack)@ == after_pop(after_pop(old(stack)@)),
            final(stack).max_depth == old(stack).max_depth,
    {
        let (a, b) = Self::pop_two(stack);
        let result = if a.less_than(&b) { TubularBigInt::one() } else { TubularBigInt::zero() };
        droplet.set_value(result);
        Ok(())
    }

    /// Greater than (`>`): the droplet takes 1 when `a > b`, else 0.
    pub fn greater_than(droplet: &mut Droplet, stack: &mut DataStack) -> (r: Result<(), InterpreterError>)
        ensures
            r is Ok,
            same_but_value(*final(droplet), *old(droplet)),
            final(droplet).value@ == binary_result('>', top_or_zero(after_pop(old(stack)@)), top_or_zero(old(stack)@)),
            final(stack)@ == after_pop(after_pop(old(stack)@)),
            final(stack).max_depth == old(stack).max_depth,
    {
        let (a, b) = Self::pop_two(stack);
        let result = if a.greater_than(&b) { TubularBigInt::one() } else { TubularBigInt::zero() };
        droplet.set_value(result);
        Ok(())
    }

    /// Modulo (`%`): the droplet takes `a % b` (sign of `a`), or zero when `b` is zero.
    pub fn modulo(droplet: &mut Droplet, stack: &mut DataStack) -> (r: Result<(), InterpreterError>)
        ensures
            r is Ok,
            same_but_value(*final(droplet), *old(droplet)),
            final(droplet).value@ == binary_result('%', top_or_zero(after_pop(old(stack)@)), top_or_zero(old(stack)@)),
            final(stack)@ == after_pop(after_pop(old(stack)@)),
            final(stack).max_depth == old(stack).max_depth,
    {
        let (a, b) = Self::pop_two(stack);
        let result = if b.is_zero() { TubularBigInt::zero() } else { a.safe_mod(&b) };
        droplet.set_value(result);
        Ok(())
    }

    /// Increment (`+`): adds one to the droplet's value.
    pub fn increment(droplet: &mut Droplet) -> (r: Result<(), InterpreterError>)
        ensures
            r is Ok,
            same_but_value(*final(droplet), *old(droplet)),
            final(droplet).value@ == old(droplet).value@ + 1,
    {
        let one = TubularBigInt::new(1);
        let v = droplet.value.plus(&one);
        droplet.set_value(v);
        Ok(())
    }

    /// Decrement (`~`): subtracts one from the droplet's value.
    pub fn decrement(droplet: &mut Droplet) -> (r: Result<(), InterpreterError>)
        ensures
            r is Ok,
            same_but_value(*final(droplet), *old(droplet)),
            final(droplet).value@ == old(droplet).value@ - 1,
    {
        let one = TubularBigInt::new(1);
        let v = droplet.value.minus(&one);
        droplet.set_value(v);
        Ok(())
    }

    /// Whether `symbol` is a stack or arithmetic operator.
    pub fn is_arithmetic_operation(symbol: char) -> (r: bool)
        ensures
            r == arithmetic_symbol(symbol),
    {
        symbol == ':' || symbol == ';' || symbol == 'd' || symbol == 'A' || symbol == 'S' || symbol == 'M'
            || symbol == 'D' || symbol == '=' || symbol == '<' || symbol == '>' || symbol == '%'
            || symbol == '+' || symbol == '~'
    }

    /// Whether `symbol` is a digit.
    pub fn is_numeric_literal(symbol: char) -> (r: bool)
        ensures
            r == ('0' <= symbol <= '9'),
    {
        '0' <= symbol && symbol <= '9'
    }
}

/// Division rounds toward zero: after `D` on a stack whose top is `b` and whose
/// next value is `a`, the droplet holds `a / b` cut toward zero (the quotient of
/// the magnitudes, negative when exactly one of them is), or 0 when `b` is 0;
/// both values leave the stack.
pub proof fn law_divide_truncates(v: int, s: Seq<int>)
    requires
        s.len() >= 2,
    ensures
        ({
            let a = s[s.len() - 2];
            let b = s[s.len() - 1];
            let q = op_value('D', v, s);
            &&& b == 0 ==> q == 0
            &&& a >= 0 && b > 0 ==> q == a / b
            &&& a >= 0 && b < 0 ==> q == -(a / (-b))
            &&& a < 0 && b > 0 ==> q == -((-a) / b)
            &&& a < 0 && b < 0 ==> q == (-a) / (-b)
            &&& op_stack('D', v, s) == s.take(s.len() - 2)
        }),
{
    assert(s.drop_last().drop_last() =~= s.take(s.len() - 2));
}

/// The binary operators combine the value below the top (`a`) with the top
/// (`b`), in that order, and leave the result in the droplet: `A` adds, `S`
/// gives `a - b`, `M` multiplies, `=`, `<` and `>` give 1 when `a == b`,
/// `a < b`, `a > b` and 0 otherwise, and `%` gives the remainder of `a / b` cut
/// toward zero, which takes the sign of `a` (0 when `b` is 0); each pops both.
pub proof fn law_binary_operators(v: int, s: Seq<int>)
    requires
        s.len() >= 2,
    ensures
        ({
            let a = s[s.len() - 2];
            let b = s[s.len() - 1];
            &&& op_value('A', v, s) == a + b
            &&& op_value('S', v, s) == a - b
            &&& op_value('M', v, s) == a * b
            &&& op_value('=', v, s) == (if a == b { 1int } else { 0int })
            &&& op_value('<', v, s) == (if a < b { 1int } else { 0int })
            &&& op_value('>', v, s) == (if a > b { 1int } else { 0int })
            &&& b == 0 ==> op_value('%', v, s) == 0
            &&& a >= 0 && b > 0 ==> op_value('%', v, s) == a % b
            &&& a >= 0 && b < 0 ==> op_value('%', v, s) == a % (-b)
            &&& a < 0 && b > 0 ==> op_value('%', v, s) == -((-a) % b)
            &&& a < 0 && b < 0 ==> op_value('%', v, s) == -((-a) % (-b))
            &&& op_stack('A', v, s) == s.take(s.len() - 2)
            &&& op_stack('%', v, s) == s.take(s.len() - 2)
        }),
{
    let a = s[s.len() - 2];
    let b = s[s.len() - 1];
    assert(s.drop_last().drop_last() =~= s.take(s.len() - 2));
    if b != 0 {
        let x = if a < 0 { -a } else { a };
        let y = if b < 0 { -b } else { b };
        let q = x / y;
        vstd::arithmetic::div_mod::lemma_fundamental_div_mod(x, y);
        assert(b * (if (a < 0) == (b < 0) { q } else { -q }) == (if a < 0 { -(y * q) } else { y * q })) by (nonlinear_arith)
            requires y == (if b < 0 { -b } else { b }), x == (if a < 0 { -a } else { a });
    }
}

/// Pushing and popping: `:` pushes the droplet's value, `;` pops the top into the
/// droplet (0 from an empty stack), `d` pushes a copy of the top, `+` and `~`
/// add and take one.
pub proof fn law_stack_operators(v: int, s: Seq<int>)
    ensures
        op_stack(':', v, s) == s.push(v),
        op_value(':', v, s) == v,
        op_value(';', v, s) == (if s.len() > 0 { s[s.len() - 1] } else { 0 }),
        op_stack(';', v, s) == (if s.len() > 0 { s.take(s.len() - 1) } else { s }),
        s.len() > 0 ==> op_stack('d', v, s) == s.push(s[s.len() - 1]),
        op_value('+', v, s) == v + 1,
        op_value('~', v, s) == v - 1,
{
    assert(s.len() > 0 ==> s.drop_last() =~= s.take(s.len() - 1));
}

} // verus!
