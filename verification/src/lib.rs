//! Peachili: the front end of a small compiler for the Peachili language.
//!
//! String ==(Lexer)==> Tokens ==(Parser)==> AST ==(TLD / type resolution / type checking)==>
//! checked AST ==(frame allocation / code generation)==> x86-64 assembly, or an LLVM module.
pub mod alloc_frame;
pub mod ast;
pub mod chars;
pub mod codegen;
pub mod compiler;
pub mod const_value;
pub mod error;
pub mod frontend;
pub mod ident;
pub mod lexer;
pub mod laws;
pub mod lexer_spec;
pub mod lower_laws;
pub mod llvm_codegen;
pub mod llvm_compiler;
pub mod llvm_emit;
pub mod llvm_ir;
pub mod module_spec;
pub mod name_map;
pub mod option;
pub mod parse;
pub mod parse_body;
pub mod parse_module;
pub mod parse_spec;
pub mod parser;
pub mod pfunction;
pub mod position;
pub mod ptype;
pub mod root;
pub mod pvariable;
pub mod resolve_tld;
pub mod resolve_types;
pub mod text;
pub mod tld;
pub mod token;
pub mod type_check;
pub mod x64;
pub mod x64_machine;
pub mod x64_text;
