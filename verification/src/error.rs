use vstd::prelude::*;

use crate::position::Position;

verus! {

/// The kinds of compile error. A type or an expression that an error is about is
/// held as the text that it is printed as.
#[derive(PartialEq, Eq, Debug, Clone)]
pub enum CmpErrorKind {
    /// An integer literal does not fit in a signed 64-bit integer (its digits).
    OUTOF64BITSINTRANGE(String),
    STATEMENTMUSTBEENDEDWITHSEMICOLON,
    GOTINVALIDPTYPE,
    EXPECTEDIDENTIFIER,
    RETURNINNORETURNFUNC,
    RETURNLOCALADDRESS,
    /// The name of the variable.
    USEDUNDEFINEDAUTOVAR(String),
    /// The name of the function.
    CALLEDUNDEFINEDFUNCTION(String),
    /// The function, the number of its parameters, the number of arguments given.
    ARGNUMBERINCORRECT(String, usize, usize),
    /// The function, the argument's index, the parameter's type, the argument's type.
    ARGTYPEINCORRECT(String, usize, String, String),
    CANNOTAPPLYMINUSTO(String),
    CANNOTDEREFERENCENOTPOINTER(String),
    CANNOTACCESSMEMBERWITHNOTSTRUCT(String),
    /// The structure type and the member's name.
    UNDEFINEDSUCHAMEMBER(String, String),
    /// The operator and the types of its operands.
    BINARYOPERATIONMUSTHAVETOSAMETYPEOPERANDS(String, String, String),
    BOTHBLOCKSMUSTBESAMETYPE,
    CONDITIONEXPRESSIONMUSTBEANBOOLEANINIF(String),
    UNABLETORESOLVEEXPRESSIONTYPE(String),
    CANNOTASSIGNMENTUNRESOLVEDRIGHTVALUE(String, String),
    CANNOTASSIGNMENTTOCONSTANTAFTERINITIALIZATION(String),
    BOTHVALUESMUSTBESAMETYPEINASSIGNMENT(String, String),
    MAINMUSTHAVENOARGSANDNORETURN,
    MAINMUSTEXIST,
}

/// A compile error: what went wrong, and where.
#[derive(PartialEq, Eq, Debug, Clone)]
pub struct CompileError {
    pub kind: CmpErrorKind,
    pub position: Position,
}


/// The mathematical value of an error kind: its texts are taken as their characters.
pub enum CmpErrorKindV {
    OUTOF64BITSINTRANGE(Seq<char>),
    STATEMENTMUSTBEENDEDWITHSEMICOLON,
    GOTINVALIDPTYPE,
    EXPECTEDIDENTIFIER,
    RETURNINNORETURNFUNC,
    RETURNLOCALADDRESS,
    USEDUNDEFINEDAUTOVAR(Seq<char>),
    CALLEDUNDEFINEDFUNCTION(Seq<char>),
    ARGNUMBERINCORRECT(Seq<char>, usize, usize),
    ARGTYPEINCORRECT(Seq<char>, usize, Seq<char>, Seq<char>),
    CANNOTAPPLYMINUSTO(Seq<char>),
    CANNOTDEREFERENCENOTPOINTER(Seq<char>),
    CANNOTACCESSMEMBERWITHNOTSTRUCT(Seq<char>),
    UNDEFINEDSUCHAMEMBER(Seq<char>, Seq<char>),
    BINARYOPERATIONMUSTHAVETOSAMETYPEOPERANDS(Seq<char>, Seq<char>, Seq<char>),
    BOTHBLOCKSMUSTBESAMETYPE,
    CONDITIONEXPRESSIONMUSTBEANBOOLEANINIF(Seq<char>),
    UNABLETORESOLVEEXPRESSIONTYPE(Seq<char>),
    CANNOTASSIGNMENTUNRESOLVEDRIGHTVALUE(Seq<char>, Seq<char>),
    CANNOTASSIGNMENTTOCONSTANTAFTERINITIALIZATION(Seq<char>),
    BOTHVALUESMUSTBESAMETYPEINASSIGNMENT(Seq<char>, Seq<char>),
    MAINMUSTHAVENOARGSANDNORETURN,
    MAINMUSTEXIST,
}

impl View for CmpErrorKind {
    type V = CmpErrorKindV;

    open spec fn view(&self) -> CmpErrorKindV {
        match *self {
            CmpErrorKind::OUTOF64BITSINTRANGE(a) => CmpErrorKindV::OUTOF64BITSINTRANGE(a@),
            CmpErrorKind::STATEMENTMUSTBEENDEDWITHSEMICOLON => CmpErrorKindV::STATEMENTMUSTBEENDEDWITHSEMICOLON,
            CmpErrorKind::GOTINVALIDPTYPE => CmpErrorKindV::GOTINVALIDPTYPE,
            CmpErrorKind::EXPECTEDIDENTIFIER => CmpErrorKindV::EXPECTEDIDENTIFIER,
            CmpErrorKind::RETURNINNORETURNFUNC => CmpErrorKindV::RETURNINNORETURNFUNC,
            CmpErrorKind::RETURNLOCALADDRESS => CmpErrorKindV::RETURNLOCALADDRESS,
            CmpErrorKind::USEDUNDEFINEDAUTOVAR(a) => CmpErrorKindV::USEDUNDEFINEDAUTOVAR(a@),
            CmpErrorKind::CALLEDUNDEFINEDFUNCTION(a) => CmpErrorKindV::CALLEDUNDEFINEDFUNCTION(a@),
            CmpErrorKind::ARGNUMBERINCORRECT(a, b, c) => CmpErrorKindV::ARGNUMBERINCORRECT(a@, b, c),
            CmpErrorKind::ARGTYPEINCORRECT(a, b, c, d) => CmpErrorKindV::ARGTYPEINCORRECT(a@, b, c@, d@),
            CmpErrorKind::CANNOTAPPLYMINUSTO(a) => CmpErrorKindV::CANNOTAPPLYMINUSTO(a@),
            CmpErrorKind::CANNOTDEREFERENCENOTPOINTER(a) => CmpErrorKindV::CANNOTDEREFERENCENOTPOINTER(a@),
            CmpErrorKind::CANNOTACCESSMEMBERWITHNOTSTRUCT(a) => CmpErrorKindV::CANNOTACCESSMEMBERWITHNOTSTRUCT(a@),
            CmpErrorKind::UNDEFINEDSUCHAMEMBER(a, b) => CmpErrorKindV::UNDEFINEDSUCHAMEMBER(a@, b@),
            CmpErrorKind::BINARYOPERATIONMUSTHAVETOSAMETYPEOPERANDS(a, b, c) => CmpErrorKindV::BINARYOPERATIONMUSTHAVETOSAMETYPEOPERANDS(a@, b@, c@),
            CmpErrorKind::BOTHBLOCKSMUSTBESAMETYPE => CmpErrorKindV::BOTHBLOCKSMUSTBESAMETYPE,
            CmpErrorKind::CONDITIONEXPRESSIONMUSTBEANBOOLEANINIF(a) => CmpErrorKindV::CONDITIONEXPRESSIONMUSTBEANBOOLEANINIF(a@),
            CmpErrorKind::UNABLETORESOLVEEXPRESSIONTYPE(a) => CmpErrorKindV::UNABLETORESOLVEEXPRESSIONTYPE(a@),
            CmpErrorKind::CANNOTASSIGNMENTUNRESOLVEDRIGHTVALUE(a, b) => CmpErrorKindV::CANNOTASSIGNMENTUNRESOLVEDRIGHTVALUE(a@, b@),
            CmpErrorKind::CANNOTASSIGNMENTTOCONSTANTAFTERINITIALIZATION(a) => CmpErrorKindV::CANNOTASSIGNMENTTOCONSTANTAFTERINITIALIZATION(a@),
            CmpErrorKind::BOTHVALUESMUSTBESAMETYPEINASSIGNMENT(a, b) => CmpErrorKindV::BOTHVALUESMUSTBESAMETYPEINASSIGNMENT(a@, b@),
            CmpErrorKind::MAINMUSTHAVENOARGSANDNORETURN => CmpErrorKindV::MAINMUSTHAVENOARGSANDNORETURN,
            CmpErrorKind::MAINMUSTEXIST => CmpErrorKindV::MAINMUSTEXIST,
        }
    }
}

/// The mathematical value of an error.
pub struct CompileErrorV {
    pub kind: CmpErrorKindV,
    pub position: Position,
}

impl View for CompileError {
    type V = CompileErrorV;

    open spec fn view(&self) -> CompileErrorV {
        CompileErrorV { kind: self.kind@, position: self.position }
    }
}

/// The values of a list of errors.
pub open spec fn errors_view(es: Seq<CompileError>) -> Seq<CompileErrorV> {
    es.map_values(|e: CompileError| e@)
}

impl CmpErrorKind {
    /// A copy of the error kind.
    pub fn copy_kind(&self) -> (k: Self)
        ensures
            k == *self,
    {
        match self {
            CmpErrorKind::OUTOF64BITSINTRANGE(s) => CmpErrorKind::OUTOF64BITSINTRANGE(s.clone()),
            CmpErrorKind::STATEMENTMUSTBEENDEDWITHSEMICOLON => CmpErrorKind::STATEMENTMUSTBEENDEDWITHSEMICOLON,
            CmpErrorKind::GOTINVALIDPTYPE => CmpErrorKind::GOTINVALIDPTYPE,
            CmpErrorKind::EXPECTEDIDENTIFIER => CmpErrorKind::EXPECTEDIDENTIFIER,
            CmpErrorKind::RETURNINNORETURNFUNC => CmpErrorKind::RETURNINNORETURNFUNC,
            CmpErrorKind::RETURNLOCALADDRESS => CmpErrorKind::RETURNLOCALADDRESS,
            CmpErrorKind::USEDUNDEFINEDAUTOVAR(a) => CmpErrorKind::USEDUNDEFINEDAUTOVAR(a.clone()),
            CmpErrorKind::CALLEDUNDEFINEDFUNCTION(a) => CmpErrorKind::CALLEDUNDEFINEDFUNCTION(a.clone()),
            CmpErrorKind::ARGNUMBERINCORRECT(a, b, c) => CmpErrorKind::ARGNUMBERINCORRECT(a.clone(), *b, *c),
            CmpErrorKind::ARGTYPEINCORRECT(a, b, c, d) => CmpErrorKind::ARGTYPEINCORRECT(
                a.clone(),
                *b,
                c.clone(),
                d.clone(),
            ),
            CmpErrorKind::CANNOTAPPLYMINUSTO(a) => CmpErrorKind::CANNOTAPPLYMINUSTO(a.clone()),
            CmpErrorKind::CANNOTDEREFERENCENOTPOINTER(a) => CmpErrorKind::CANNOTDEREFERENCENOTPOINTER(a.clone()),
            CmpErrorKind::CANNOTACCESSMEMBERWITHNOTSTRUCT(a) => CmpErrorKind::CANNOTACCESSMEMBERWITHNOTSTRUCT(a.clone()),
            CmpErrorKind::UNDEFINEDSUCHAMEMBER(a, b) => CmpErrorKind::UNDEFINEDSUCHAMEMBER(a.clone(), b.clone()),
            CmpErrorKind::BINARYOPERATIONMUSTHAVETOSAMETYPEOPERANDS(a, b, c) => CmpErrorKind::BINARYOPERATIONMUSTHAVETOSAMETYPEOPERANDS(
                a.clone(),
                b.clone(),
                c.clone(),
            ),
            CmpErrorKind::BOTHBLOCKSMUSTBESAMETYPE => CmpErrorKind::BOTHBLOCKSMUSTBESAMETYPE,
            CmpErrorKind::CONDITIONEXPRESSIONMUSTBEANBOOLEANINIF(a) => CmpErrorKind::CONDITIONEXPRESSIONMUSTBEANBOOLEANINIF(a.clone()),
            CmpErrorKind::UNABLETORESOLVEEXPRESSIONTYPE(a) => CmpErrorKind::UNABLETORESOLVEEXPRESSIONTYPE(a.clone()),
            CmpErrorKind::CANNOTASSIGNMENTUNRESOLVEDRIGHTVALUE(a, b) => CmpErrorKind::CANNOTASSIGNMENTUNRESOLVEDRIGHTVALUE(
                a.clone(),
                b.clone(),
            ),
            CmpErrorKind::CANNOTASSIGNMENTTOCONSTANTAFTERINITIALIZATION(a) => CmpErrorKind::CANNOTASSIGNMENTTOCONSTANTAFTERINITIALIZATION(a.clone()),
            CmpErrorKind::BOTHVALUESMUSTBESAMETYPEINASSIGNMENT(a, b) => CmpErrorKind::BOTHVALUESMUSTBESAMETYPEINASSIGNMENT(
                a.clone(),
                b.clone(),
            ),
            CmpErrorKind::MAINMUSTHAVENOARGSANDNORETURN => CmpErrorKind::MAINMUSTHAVENOARGSANDNORETURN,
            CmpErrorKind::MAINMUSTEXIST => CmpErrorKind::MAINMUSTEXIST,
        }
    }
}

impl CompileError {
    /// A copy of the error.
    pub fn copy_error(&self) -> (e: Self)
        ensures
            e == *self,
    {
        CompileError { kind: self.kind.copy_kind(), position: self.position }
    }

    pub fn new(kind: CmpErrorKind, position: Position) -> (e: Self)
        ensures
            e.kind == kind,
            e.position == position,
    {
        CompileError { kind, position }
    }

    pub fn out_of_64bit_sint_range(number_str: String, position: Position) -> (e: Self)
        ensures
            e.kind == CmpErrorKind::OUTOF64BITSINTRANGE(number_str),
            e.position == position,
    {
        CompileError { kind: CmpErrorKind::OUTOF64BITSINTRANGE(number_str), position }
    }
}

} // verus!
