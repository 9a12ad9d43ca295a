//! Shell variables: values and attribute flags.

use vstd::prelude::*;

verus! {

/// A value a shell variable can hold: a scalar string or an indexed array of
/// strings.
#[derive(Clone, PartialEq, Eq, Debug)]
pub enum ShellValue {
    Scalar(String),
    Indexed(Vec<String>),
}

/// A value as written in an assignment, before it is installed in a variable.
#[derive(Clone, PartialEq, Eq, Debug)]
pub enum ShellValueLiteral {
    Scalar(String),
    Array(Vec<String>),
}

impl ShellValueLiteral {
    /// The variable value an assignment literal installs.
    pub open spec fn spec_to_value(self) -> ShellValue {
        match self {
            ShellValueLiteral::Scalar(s) => ShellValue::Scalar(s),
            ShellValueLiteral::Array(elems) => ShellValue::Indexed(elems),
        }
    }

    /// Converts the literal into the value it installs.
    pub fn to_value(self) -> (r: ShellValue)
        ensures
            r == self.spec_to_value(),
    {
        match self {
            ShellValueLiteral::Scalar(s) => ShellValue::Scalar(s),
            ShellValueLiteral::Array(elems) => ShellValue::Indexed(elems),
        }
    }
}

/// A named slot in the environment: a value plus its attribute flags.
#[derive(Clone, PartialEq, Eq, Debug)]
pub struct ShellVariable {
    pub value: ShellValue,
    pub exported: bool,
    pub readonly: bool,
}

impl ShellVariable {
    /// A fresh, unexported, writable variable holding `value`.
    pub fn new(value: ShellValue) -> (r: ShellVariable)
        ensures
            r.value == value,
            !r.exported,
            !r.readonly,
    {
        ShellVariable { value, exported: false, readonly: false }
    }

    /// Marks the variable for inclusion in children's environments.
    pub fn export(&mut self)
        ensures
            *final(self) == (ShellVariable { exported: true, ..*old(self) }),
    {
        self.exported = true;
    }

    /// Clears the exported flag.
    pub fn unexport(&mut self)
        ensures
            *final(self) == (ShellVariable { exported: false, ..*old(self) }),
    {
        self.exported = false;
    }

    /// Whether the variable is exported.
    pub fn is_exported(&self) -> (b: bool)
        ensures
            b == self.exported,
    {
        self.exported
    }

    /// Whether the variable refuses writes.
    pub fn is_readonly(&self) -> (b: bool)
        ensures
            b == self.readonly,
    {
        self.readonly
    }

    /// The string this variable contributes to a child process's environment:
    /// scalars as themselves; arrays are omitted.
    pub open spec fn spec_exported_string(self) -> Option<String> {
        match self.value {
            ShellValue::Scalar(s) => Some(s),
            ShellValue::Indexed(_) => None,
        }
    }

    /// Reads the scalar rendering of the value, if it has one.
    pub fn try_get_scalar(&self) -> (r: Option<String>)
        ensures
            match self.spec_exported_string() {
                Some(s) => r matches Some(got) && got@ == s@,
                None => r is None,
            },
    {
        match &self.value {
            ShellValue::Scalar(s) => Some(s.clone()),
            ShellValue::Indexed(_) => None,
        }
    }
}

/// Two values holding the same text: the same variant, with equal scalar
/// characters or elementwise-equal array elements.
pub open spec fn spec_value_obs_eq(a: ShellValue, b: ShellValue) -> bool {
    match (a, b) {
        (ShellValue::Scalar(x), ShellValue::Scalar(y)) => x@ == y@,
        (ShellValue::Indexed(xs), ShellValue::Indexed(ys)) => xs@.len() == ys@.len() && (forall|
            i: int,
        |
            0 <= i < xs@.len() ==> (#[trigger] xs@[i])@ == ys@[i]@),
        _ => false,
    }
}

/// Two variables that resolve identically: equal flags, same value text.
pub open spec fn spec_var_obs_eq(a: ShellVariable, b: ShellVariable) -> bool {
    a.exported == b.exported && a.readonly == b.readonly && spec_value_obs_eq(a.value, b.value)
}

/// Copies a variable; the copy holds the same flags and a value with the
/// same text.
pub fn clone_variable(v: &ShellVariable) -> (r: ShellVariable)
    ensures
        spec_var_obs_eq(r, *v),
{
    let value = match &v.value {
        ShellValue::Scalar(s) => ShellValue::Scalar(s.clone()),
        ShellValue::Indexed(els) => ShellValue::Indexed(crate::strings::clone_string_vec(els)),
    };
    ShellVariable { value, exported: v.exported, readonly: v.readonly }
}

} // verus!
