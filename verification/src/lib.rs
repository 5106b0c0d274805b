//! A reverse-Polish calculator for rational functions in one variable.
//!
//! A line of whitespace-separated tokens — numeric literals, the variable
//! symbol `x`, the binary operators `+ - * / ^` and the derivative `d` —
//! is evaluated over a stack of rational functions and rendered back as
//! postfix text, or rejected with one of the two taxonomy errors.
//!
//! Coefficients are IEEE-754 doubles, held as bit patterns; `number`
//! states what every rounded operation returns, `polynomial` and
//! `expression` carry the verified algebra, and
//! `reverse_polish_calculator` drives the stack machine.
pub mod expression;
pub mod globals;
pub mod number;
pub mod polynomial;
pub mod reverse_polish_calculator;
