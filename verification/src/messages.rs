//! The texts of the type checker's diagnostics.
use crate::common::text::{decimal, owned, push_decimal};
use crate::common::types::Types;
use vstd::prelude::*;
use vstd::string::StringExecFns;

verus! {

/// Said when a name is declared twice in one scope.
pub open spec fn redefined_variable(name: Seq<char>) -> Seq<char> {
    "Redefinition of variable '"@ + name + "'"@
}

pub fn redefined_variable_text(name: &String) -> (r: String)
    ensures
        r@ == redefined_variable(name@),
{
    let mut out = owned("Redefinition of variable '");
    out.append(name.as_str());
    out.append("'");
    out
}

/// Said when a variable is declared with type `void`.
pub open spec fn void_variable(name: Seq<char>) -> Seq<char> {
    "Can't assign to 'void' "@ + name
}

pub fn void_variable_text(name: &String) -> (r: String)
    ensures
        r@ == void_variable(name@),
{
    let mut out = owned("Can't assign to 'void' ");
    out.append(name.as_str());
    out
}

/// Said when a value of type `right` is given where type `left` is needed.
pub open spec fn incompatible(left: Types, right: Types) -> Seq<char> {
    "Can't assign to type '"@ + left.text_of() + "' with type '"@ + right.text_of() + "'"@
}

pub fn incompatible_text(left: &Types, right: &Types) -> (r: String)
    ensures
        r@ == incompatible(*left, *right),
{
    let mut out = owned("Can't assign to type '");
    let left_text = left.to_string();
    out.append(left_text.as_str());
    out.append("' with type '");
    let right_text = right.to_string();
    out.append(right_text.as_str());
    out.append("'");
    out
}

/// Said when a global variable is initialized with more than a constant.
pub open spec fn not_constant() -> Seq<char> {
    "Global variables can only be initialized to compile-time constants"@
}

pub fn not_constant_text() -> (r: String)
    ensures
        r@ == not_constant(),
{
    owned("Global variables can only be initialized to compile-time constants")
}

/// Said when a function is defined inside another.
pub open spec fn nested_function() -> Seq<char> {
    "Can only define functions in global scope"@
}

pub fn nested_function_text() -> (r: String)
    ensures
        r@ == nested_function(),
{
    owned("Can only define functions in global scope")
}

/// Said when a function is defined twice.
pub open spec fn redefined_function(name: Seq<char>) -> Seq<char> {
    "Redefinition of function '"@ + name + "'"@
}

pub fn redefined_function_text(name: &String) -> (r: String)
    ensures
        r@ == redefined_function(name@),
{
    let mut out = owned("Redefinition of function '");
    out.append(name.as_str());
    out.append("'");
    out
}

/// Said when a function that returns a value may end without `return`.
pub open spec fn missing_return() -> Seq<char> {
    "non-void function doesnt return in all code paths"@
}

pub fn missing_return_text() -> (r: String)
    ensures
        r@ == missing_return(),
{
    owned("non-void function doesnt return in all code paths")
}

/// Said when `main` does not return `int`.
pub open spec fn main_type(found: Types) -> Seq<char> {
    "expected 'main()' return type 'int', found: '"@ + found.text_of() + "'"@
}

pub fn main_type_text(found: &Types) -> (r: String)
    ensures
        r@ == main_type(*found),
{
    let mut out = owned("expected 'main()' return type 'int', found: '");
    let found_text = found.to_string();
    out.append(found_text.as_str());
    out.append("'");
    out
}

/// Said when two declarations of a function differ in what it returns.
pub open spec fn conflicting_return(expected: Types, found: Types) -> Seq<char> {
    "Conflicting return-types in function-declarations: expected "@ + expected.text_of() + ", found "@ + found.text_of()
}

pub fn conflicting_return_text(expected: &Types, found: &Types) -> (r: String)
    ensures
        r@ == conflicting_return(*expected, *found),
{
    let mut out = owned("Conflicting return-types in function-declarations: expected ");
    let expected_text = expected.to_string();
    out.append(expected_text.as_str());
    out.append(", found ");
    let found_text = found.to_string();
    out.append(found_text.as_str());
    out
}

/// Said when two declarations of a function differ in the number of parameters.
pub open spec fn parameter_count(expected: nat, found: nat) -> Seq<char> {
    "Mismatched number of parameters in function-declarations: expected "@ + decimal(expected) + ", found "@ + decimal(found)
}

pub fn parameter_count_text(expected: usize, found: usize) -> (r: String)
    ensures
        r@ == parameter_count(expected as nat, found as nat),
{
    let mut out = owned("Mismatched number of parameters in function-declarations: expected ");
    push_decimal(&mut out, expected);
    out.append(", found ");
    push_decimal(&mut out, found);
    out
}

/// Said when two declarations of a function differ in the type of a parameter.
pub open spec fn parameter_type(expected: Types, found: Types) -> Seq<char> {
    "Mismatched parameter-types in function-declarations: expected '"@ + expected.text_of() + "', found '"@ + found.text_of() + "'"@
}

pub fn parameter_type_text(expected: &Types, found: &Types) -> (r: String)
    ensures
        r@ == parameter_type(*expected, *found),
{
    let mut out = owned("Mismatched parameter-types in function-declarations: expected '");
    let expected_text = expected.to_string();
    out.append(expected_text.as_str());
    out.append("', found '");
    let found_text = found.to_string();
    out.append(found_text.as_str());
    out.append("'");
    out
}

/// Said when `return` stands outside every function.
pub open spec fn return_outside() -> Seq<char> {
    "can only define return statements inside a function"@
}

pub fn return_outside_text() -> (r: String)
    ensures
        r@ == return_outside(),
{
    owned("can only define return statements inside a function")
}

/// Said when `++` or `--` is applied to an array.
pub open spec fn increment_array() -> Seq<char> {
    "Can't increment array-type"@
}

pub fn increment_array_text() -> (r: String)
    ensures
        r@ == increment_array(),
{
    owned("Can't increment array-type")
}

/// Said when `++` or `--` is applied to what is no storage location.
pub open spec fn increment_rvalue() -> Seq<char> {
    "Can't increment Rvalues"@
}

pub fn increment_rvalue_text() -> (r: String)
    ensures
        r@ == increment_rvalue(),
{
    owned("Can't increment Rvalues")
}

/// Said when an array stands left of an assignment.
pub open spec fn array_assignment(left: Types) -> Seq<char> {
    "array "@ + left.text_of() + " is not assignable"@
}

pub fn array_assignment_text(left: &Types) -> (r: String)
    ensures
        r@ == array_assignment(*left),
{
    let mut out = owned("array ");
    let left_text = left.to_string();
    out.append(left_text.as_str());
    out.append(" is not assignable");
    out
}

/// Said when what stands left of an assignment is no storage location.
pub open spec fn expect_lvalue() -> Seq<char> {
    "Expect Lvalue left of assignment"@
}

pub fn expect_lvalue_text() -> (r: String)
    ensures
        r@ == expect_lvalue(),
{
    owned("Expect Lvalue left of assignment")
}

/// Said when what is called is no identifier.
pub open spec fn callee() -> Seq<char> {
    "function-name has to be identifier"@
}

pub fn callee_text() -> (r: String)
    ensures
        r@ == callee(),
{
    owned("function-name has to be identifier")
}

/// Said when a function is called that is neither declared nor defined.
pub open spec fn no_function(name: Seq<char>) -> Seq<char> {
    "no function "@ + name + " exists"@
}

pub fn no_function_text(name: &String) -> (r: String)
    ensures
        r@ == no_function(name@),
{
    let mut out = owned("no function ");
    out.append(name.as_str());
    out.append(" exists");
    out
}

/// Said when a call gives another number of arguments than the function takes.
pub open spec fn argument_count(name: Seq<char>, expected: nat, found: nat) -> Seq<char> {
    "at '"@ + name + "': expected "@ + decimal(expected) + " argument(s) found "@ + decimal(found)
}

pub fn argument_count_text(name: &String, expected: usize, found: usize) -> (r: String)
    ensures
        r@ == argument_count(name@, expected as nat, found as nat),
{
    let mut out = owned("at '");
    out.append(name.as_str());
    out.append("': expected ");
    push_decimal(&mut out, expected);
    out.append(" argument(s) found ");
    push_decimal(&mut out, found);
    out
}

/// Said when `&&` or `||` has an operand of type `void`.
pub open spec fn invalid_logical(left: Types, op: Seq<char>, right: Types) -> Seq<char> {
    "invalid logical expression: '"@ + left.text_of() + "' "@ + op + " '"@ + right.text_of() + "'"@
}

pub fn invalid_logical_text(left: &Types, op: &String, right: &Types) -> (r: String)
    ensures
        r@ == invalid_logical(*left, op@, *right),
{
    let mut out = owned("invalid logical expression: '");
    let left_text = left.to_string();
    out.append(left_text.as_str());
    out.append("' ");
    out.append(op.as_str());
    out.append(" '");
    let right_text = right.to_string();
    out.append(right_text.as_str());
    out.append("'");
    out
}

/// Said when a binary operator does not take operands of these types.
pub open spec fn invalid_binary(left: Types, op: Seq<char>, right: Types) -> Seq<char> {
    "invalid binary expression: '"@ + left.text_of() + "' "@ + op + " '"@ + right.text_of() + "'"@
}

pub fn invalid_binary_text(left: &Types, op: &String, right: &Types) -> (r: String)
    ensures
        r@ == invalid_binary(*left, op@, *right),
{
    let mut out = owned("invalid binary expression: '");
    let left_text = left.to_string();
    out.append(left_text.as_str());
    out.append("' ");
    out.append(op.as_str());
    out.append(" '");
    let right_text = right.to_string();
    out.append(right_text.as_str());
    out.append("'");
    out
}

/// Said when a unary operator does not take an operand of this type.
pub open spec fn invalid_unary(op: Seq<char>, right: Types) -> Seq<char> {
    "Invalid unary-expression '"@ + op + "' with type '"@ + right.text_of() + "'"@
}

pub fn invalid_unary_text(op: &String, right: &Types) -> (r: String)
    ensures
        r@ == invalid_unary(op@, *right),
{
    let mut out = owned("Invalid unary-expression '");
    out.append(op.as_str());
    out.append("' with type '");
    let right_text = right.to_string();
    out.append(right_text.as_str());
    out.append("'");
    out
}

/// Said when `&` is applied to what is no storage location.
pub open spec fn address_of_rvalue() -> Seq<char> {
    "can't call '&' on r-value"@
}

pub fn address_of_rvalue_text() -> (r: String)
    ensures
        r@ == address_of_rvalue(),
{
    owned("can't call '&' on r-value")
}

/// Said when `*` is applied to what is no pointer.
pub open spec fn dereference(found: Types) -> Seq<char> {
    "can't dereference value-type '"@ + found.text_of() + "', expected type 'pointer'"@
}

pub fn dereference_text(found: &Types) -> (r: String)
    ensures
        r@ == dereference(*found),
{
    let mut out = owned("can't dereference value-type '");
    let found_text = found.to_string();
    out.append(found_text.as_str());
    out.append("', expected type 'pointer'");
    out
}

/// Said when a function is declared to return an array.
pub open spec fn return_array() -> Seq<char> {
    "Can't return stack-array from function"@
}

pub fn return_array_text() -> (r: String)
    ensures
        r@ == return_array(),
{
    owned("Can't return stack-array from function")
}

/// Said when a function returns a value of another type than it declares.
pub open spec fn return_mismatch(expected: Types, found: Types) -> Seq<char> {
    "Mismatched function return type: '"@ + expected.text_of() + "', found: '"@ + found.text_of() + "'"@
}

pub fn return_mismatch_text(expected: &Types, found: &Types) -> (r: String)
    ensures
        r@ == return_mismatch(*expected, *found),
{
    let mut out = owned("Mismatched function return type: '");
    let expected_text = expected.to_string();
    out.append(expected_text.as_str());
    out.append("', found: '");
    let found_text = found.to_string();
    out.append(found_text.as_str());
    out.append("'");
    out
}

/// Said when the condition of an `if` has type `void`.
pub open spec fn void_condition() -> Seq<char> {
    "Expected expression inside of condition, found 'void'"@
}

pub fn void_condition_text() -> (r: String)
    ensures
        r@ == void_condition(),
{
    owned("Expected expression inside of condition, found 'void'")
}

/// Said when the condition of a loop has type `void`.
pub open spec fn void_loop_condition() -> Seq<char> {
    "conditional expected scalar type found 'void'"@
}

pub fn void_loop_condition_text() -> (r: String)
    ensures
        r@ == void_loop_condition(),
{
    owned("conditional expected scalar type found 'void'")
}

/// Said when an identifier is used that no scope declares.
pub open spec fn undeclared() -> Seq<char> {
    "undeclared identifier"@
}

pub fn undeclared_text() -> (r: String)
    ensures
        r@ == undeclared(),
{
    owned("undeclared identifier")
}

/// Said when the variables of a function need more bytes than can be counted.
pub open spec fn frame_too_large() -> Seq<char> {
    "stack frame is too large"@
}

pub fn frame_too_large_text() -> (r: String)
    ensures
        r@ == frame_too_large(),
{
    owned("stack frame is too large")
}

/// Said when a string literal needs more bytes than can be counted.
pub open spec fn string_too_long() -> Seq<char> {
    "string literal is too long"@
}

pub fn string_too_long_text() -> (r: String)
    ensures
        r@ == string_too_long(),
{
    owned("string literal is too long")
}

/// Said when an expression holds a cast or a scaling before it is checked.
pub open spec fn inserted_node() -> Seq<char> {
    "expression holds a node that only the type checker inserts"@
}

pub fn inserted_node_text() -> (r: String)
    ensures
        r@ == inserted_node(),
{
    owned("expression holds a node that only the type checker inserts")
}

/// Said when an operator stands where the expression's form does not take it.
pub open spec fn unknown_operator(op: Seq<char>) -> Seq<char> {
    "invalid operator '"@ + op + "'"@
}

pub fn unknown_operator_text(op: &String) -> (r: String)
    ensures
        r@ == unknown_operator(op@),
{
    let mut out = owned("invalid operator '");
    out.append(op.as_str());
    out.append("'");
    out
}

/// Said when an expression that has a type already is checked again.
pub open spec fn already_checked() -> Seq<char> {
    "expression has been checked already"@
}

pub fn already_checked_text() -> (r: String)
    ensures
        r@ == already_checked(),
{
    owned("expression has been checked already")
}

} // verus!
