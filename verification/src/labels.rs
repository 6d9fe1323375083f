//! What the report calls features: readable labels, categories, and which
//! features are Node.js APIs.

use vstd::prelude::*;
use crate::text::{chars_of, chars_eq, find_from, lemma_find_from_bounds};

verus! {

/// Whether the characters `f` spell `lit`.
pub fn chars_match(f: &Vec<char>, lit: &str) -> (r: bool)
    ensures
        r == (f@ == lit@),
{
    let l = chars_of(lit);
    chars_eq(f.as_slice(), l.as_slice())
}

/// Labels of module formats and native TypeScript support.
pub open spec fn support_label_spec(f: Seq<char>) -> Option<Seq<char>> {
    if f == "module.commonjs"@ {
        Some("CommonJS (CJS)"@)
    } else if f == "module.esm"@ {
        Some("ECMAScript modules (ESM)"@)
    } else if f == "module.iife"@ {
        Some("immediately invoked function expression (IIFE)"@)
    } else if f == "module.umd"@ {
        Some("universal module definition (UMD)"@)
    } else if f == "typescript.native"@ {
        Some("native TypeScript type stripping"@)
    } else {
        None
    }
}

/// The label of a module format or TypeScript support feature.
pub fn support_feature_label(feature: &str) -> (r: Option<&'static str>)
    ensures
        match r {
            Some(label) => support_label_spec(feature@) == Some(label@),
            None => support_label_spec(feature@) is None,
        },
{
    let f = chars_of(feature);
    if chars_match(&f, "module.commonjs") {
        return Some("CommonJS (CJS)");
    }
    if chars_match(&f, "module.esm") {
        return Some("ECMAScript modules (ESM)");
    }
    if chars_match(&f, "module.iife") {
        return Some("immediately invoked function expression (IIFE)");
    }
    if chars_match(&f, "module.umd") {
        return Some("universal module definition (UMD)");
    }
    if chars_match(&f, "typescript.native") {
        return Some("native TypeScript type stripping");
    }
    None
}

/// Labels of syntax features.
pub open spec fn syntax_label_spec(f: Seq<char>) -> Option<Seq<char>> {
    if f == "syntax.functions.arrow_functions"@ {
        Some("anonymous function (() => {})"@)
    } else if f == "syntax.functions.default_parameters"@ {
        Some("default parameters"@)
    } else if f == "syntax.functions.rest_parameters"@ {
        Some("rest parameters (...args)"@)
    } else if f == "syntax.grammar.array_literals"@ {
        Some("array literal ([...])"@)
    } else if f == "syntax.grammar.boolean_literals"@ {
        Some("boolean literal (true)"@)
    } else if f == "syntax.grammar.decimal_numeric_literals"@ {
        Some("number literal (1)"@)
    } else if f == "syntax.grammar.null_literal"@ {
        Some("null literal (null)"@)
    } else if f == "syntax.grammar.regular_expression_literals"@ {
        Some("regex literal (/.../)"@)
    } else if f == "syntax.grammar.string_literals"@ {
        Some("string literal (\"...\")"@)
    } else if f == "syntax.grammar.template_literals"@ {
        Some("template literal (`...`)"@)
    } else if f == "syntax.operators.addition"@ {
        Some("addition (+)"@)
    } else if f == "syntax.operators.addition_assignment"@ {
        Some("addition assignment (+=)"@)
    } else if f == "syntax.operators.assignment"@ {
        Some("assignment (=)"@)
    } else if f == "syntax.operators.async_function"@ {
        Some("async function (async function)"@)
    } else if f == "syntax.operators.async_generator_function"@ {
        Some("async generator function (async function*)"@)
    } else if f == "syntax.operators.await"@ {
        Some("await expression (await)"@)
    } else if f == "syntax.operators.bitwise_and"@ {
        Some("bitwise and (&)"@)
    } else if f == "syntax.operators.bitwise_and_assignment"@ {
        Some("bitwise and assignment (&=)"@)
    } else if f == "syntax.operators.bitwise_not"@ {
        Some("bitwise not (~)"@)
    } else if f == "syntax.operators.bitwise_or"@ {
        Some("bitwise or (|)"@)
    } else if f == "syntax.operators.bitwise_or_assignment"@ {
        Some("bitwise or assignment (|=)"@)
    } else if f == "syntax.operators.bitwise_xor"@ {
        Some("bitwise xor (^)"@)
    } else if f == "syntax.operators.bitwise_xor_assignment"@ {
        Some("bitwise xor assignment (^=)"@)
    } else if f == "syntax.operators.class"@ {
        Some("class expression (class {})"@)
    } else if f == "syntax.operators.comma"@ {
        Some("sequence expression (,)"@)
    } else if f == "syntax.operators.conditional"@ {
        Some("conditional expression (a ? b : c)"@)
    } else if f == "syntax.operators.decrement"@ {
        Some("decrement (--)"@)
    } else if f == "syntax.operators.delete"@ {
        Some("delete operator (delete)"@)
    } else if f == "syntax.operators.division"@ {
        Some("division (/)"@)
    } else if f == "syntax.operators.division_assignment"@ {
        Some("division assignment (/=)"@)
    } else if f == "syntax.operators.equality"@ {
        Some("loose equality (==)"@)
    } else if f == "syntax.operators.exponentiation"@ {
        Some("exponentiation (**)"@)
    } else if f == "syntax.operators.exponentiation_assignment"@ {
        Some("exponentiation assignment (**=)"@)
    } else if f == "syntax.operators.function"@ {
        Some("function expression (function)"@)
    } else if f == "syntax.operators.generator_function"@ {
        Some("generator function (function*)"@)
    } else if f == "syntax.operators.greater_than"@ {
        Some("greater than (>)"@)
    } else if f == "syntax.operators.greater_than_or_equal"@ {
        Some("greater than or equal (>=)"@)
    } else if f == "syntax.operators.import"@ {
        Some("dynamic import (import())"@)
    } else if f == "syntax.operators.in"@ {
        Some("in operator (in)"@)
    } else if f == "syntax.operators.increment"@ {
        Some("increment (++)"@)
    } else if f == "syntax.operators.inequality"@ {
        Some("loose inequality (!=)"@)
    } else if f == "syntax.operators.instanceof"@ {
        Some("instanceof operator (instanceof)"@)
    } else if f == "syntax.operators.left_shift"@ {
        Some("left shift (<<)"@)
    } else if f == "syntax.operators.left_shift_assignment"@ {
        Some("left shift assignment (<<=)"@)
    } else if f == "syntax.operators.less_than"@ {
        Some("less than (<)"@)
    } else if f == "syntax.operators.less_than_or_equal"@ {
        Some("less than or equal (<=)"@)
    } else if f == "syntax.operators.logical_and"@ {
        Some("logical and (&&)"@)
    } else if f == "syntax.operators.logical_and_assignment"@ {
        Some("logical and assignment (&&=)"@)
    } else if f == "syntax.operators.logical_not"@ {
        Some("logical not (!)"@)
    } else if f == "syntax.operators.logical_or"@ {
        Some("logical or (||)"@)
    } else if f == "syntax.operators.logical_or_assignment"@ {
        Some("logical or assignment (||=)"@)
    } else if f == "syntax.operators.multiplication"@ {
        Some("multiplication (*)"@)
    } else if f == "syntax.operators.multiplication_assignment"@ {
        Some("multiplication assignment (*=)"@)
    } else if f == "syntax.operators.new"@ {
        Some("new expression (new)"@)
    } else if f == "syntax.operators.nullish_coalescing"@ {
        Some("nullish coalescing (??)"@)
    } else if f == "syntax.operators.nullish_coalescing_assignment"@ {
        Some("nullish assignment (??=)"@)
    } else if f == "syntax.operators.object_initializer"@ {
        Some("object literal ({})"@)
    } else if f == "syntax.operators.optional_chaining"@ {
        Some("optional chaining (?.)"@)
    } else if f == "syntax.operators.remainder"@ {
        Some("remainder (%)"@)
    } else if f == "syntax.operators.remainder_assignment"@ {
        Some("remainder assignment (%=)"@)
    } else if f == "syntax.operators.right_shift"@ {
        Some("right shift (>>)"@)
    } else if f == "syntax.operators.right_shift_assignment"@ {
        Some("right shift assignment (>>=)"@)
    } else if f == "syntax.operators.spread"@ {
        Some("spread syntax (...)"@)
    } else if f == "syntax.operators.strict_equality"@ {
        Some("strict equality (===)"@)
    } else if f == "syntax.operators.strict_inequality"@ {
        Some("strict inequality (!==)"@)
    } else if f == "syntax.operators.subtraction"@ {
        Some("subtraction (-)"@)
    } else if f == "syntax.operators.subtraction_assignment"@ {
        Some("subtraction assignment (-=)"@)
    } else if f == "syntax.operators.super"@ {
        Some("super expression (super)"@)
    } else if f == "syntax.operators.this"@ {
        Some("this expression (this)"@)
    } else if f == "syntax.operators.typeof"@ {
        Some("typeof operator (typeof)"@)
    } else if f == "syntax.operators.unary_negation"@ {
        Some("unary negation (-x)"@)
    } else if f == "syntax.operators.unary_plus"@ {
        Some("unary plus (+x)"@)
    } else if f == "syntax.operators.unsigned_right_shift"@ {
        Some("unsigned right shift (>>>)"@)
    } else if f == "syntax.operators.unsigned_right_shift_assignment"@ {
        Some("unsigned right shift assignment (>>>=)"@)
    } else if f == "syntax.operators.void"@ {
        Some("void operator (void)"@)
    } else if f == "syntax.operators.yield"@ {
        Some("yield expression (yield)"@)
    } else if f == "syntax.statements.await_using"@ {
        Some("await using declaration (await using)"@)
    } else if f == "syntax.statements.async_function"@ {
        Some("async function declaration (async function)"@)
    } else if f == "syntax.statements.async_generator_function"@ {
        Some("async generator function declaration (async function*)"@)
    } else if f == "syntax.statements.block"@ {
        Some("block statement ({})"@)
    } else if f == "syntax.statements.break"@ {
        Some("break statement (break)"@)
    } else if f == "syntax.statements.class"@ {
        Some("class declaration (class)"@)
    } else if f == "syntax.statements.const"@ {
        Some("constant declaration (const)"@)
    } else if f == "syntax.statements.continue"@ {
        Some("continue statement (continue)"@)
    } else if f == "syntax.statements.debugger"@ {
        Some("debugger statement (debugger)"@)
    } else if f == "syntax.statements.do_while"@ {
        Some("do while loop (do...while)"@)
    } else if f == "syntax.statements.empty"@ {
        Some("empty statement (;)"@)
    } else if f == "syntax.statements.export"@ {
        Some("export declaration (export)"@)
    } else if f == "syntax.statements.export.default"@ {
        Some("default export (export default)"@)
    } else if f == "syntax.statements.export.namespace"@ {
        Some("namespace export (export *)"@)
    } else if f == "syntax.statements.for"@ {
        Some("for loop (for)"@)
    } else if f == "syntax.statements.for_in"@ {
        Some("for in loop (for...in)"@)
    } else if f == "syntax.statements.for_of"@ {
        Some("for of loop (for...of)"@)
    } else if f == "syntax.statements.function"@ {
        Some("function declaration (function)"@)
    } else if f == "syntax.statements.generator_function"@ {
        Some("generator function declaration (function*)"@)
    } else if f == "syntax.statements.if_else"@ {
        Some("if statement (if)"@)
    } else if f == "syntax.statements.import"@ {
        Some("import declaration (import)"@)
    } else if f == "syntax.statements.label"@ {
        Some("label statement (label:)"@)
    } else if f == "syntax.statements.let"@ {
        Some("let declaration (let)"@)
    } else if f == "syntax.statements.return"@ {
        Some("return statement (return)"@)
    } else if f == "syntax.statements.switch"@ {
        Some("switch statement (switch)"@)
    } else if f == "syntax.statements.throw"@ {
        Some("throw statement (throw)"@)
    } else if f == "syntax.statements.try_catch"@ {
        Some("try catch statement (try/catch)"@)
    } else if f == "syntax.statements.using"@ {
        Some("using declaration (using)"@)
    } else if f == "syntax.statements.var"@ {
        Some("variable declaration (var)"@)
    } else if f == "syntax.statements.while"@ {
        Some("while loop (while)"@)
    } else if f == "syntax.statements.with"@ {
        Some("with statement (with)"@)
    } else {
        None
    }
}

/// The label of a syntax feature.
pub fn syntax_feature_label(feature: &str) -> (r: Option<&'static str>)
    ensures
        match r {
            Some(label) => syntax_label_spec(feature@) == Some(label@),
            None => syntax_label_spec(feature@) is None,
        },
{
    let f = chars_of(feature);
    if chars_match(&f, "syntax.functions.arrow_functions") {
        return Some("anonymous function (() => {})");
    }
    if chars_match(&f, "syntax.functions.default_parameters") {
        return Some("default parameters");
    }
    if chars_match(&f, "syntax.functions.rest_parameters") {
        return Some("rest parameters (...args)");
    }
    if chars_match(&f, "syntax.grammar.array_literals") {
        return Some("array literal ([...])");
    }
    if chars_match(&f, "syntax.grammar.boolean_literals") {
        return Some("boolean literal (true)");
    }
    if chars_match(&f, "syntax.grammar.decimal_numeric_literals") {
        return Some("number literal (1)");
    }
    if chars_match(&f, "syntax.grammar.null_literal") {
        return Some("null literal (null)");
    }
    if chars_match(&f, "syntax.grammar.regular_expression_literals") {
        return Some("regex literal (/.../)");
    }
    if chars_match(&f, "syntax.grammar.string_literals") {
        return Some("string literal (\"...\")");
    }
    if chars_match(&f, "syntax.grammar.template_literals") {
        return Some("template literal (`...`)");
    }
    if chars_match(&f, "syntax.operators.addition") {
        return Some("addition (+)");
    }
    if chars_match(&f, "syntax.operators.addition_assignment") {
        return Some("addition assignment (+=)");
    }
    if chars_match(&f, "syntax.operators.assignment") {
        return Some("assignment (=)");
    }
    if chars_match(&f, "syntax.operators.async_function") {
        return Some("async function (async function)");
    }
    if chars_match(&f, "syntax.operators.async_generator_function") {
        return Some("async generator function (async function*)");
    }
    if chars_match(&f, "syntax.operators.await") {
        return Some("await expression (await)");
    }
    if chars_match(&f, "syntax.operators.bitwise_and") {
        return Some("bitwise and (&)");
    }
    if chars_match(&f, "syntax.operators.bitwise_and_assignment") {
        return Some("bitwise and assignment (&=)");
    }
    if chars_match(&f, "syntax.operators.bitwise_not") {
        return Some("bitwise not (~)");
    }
    if chars_match(&f, "syntax.operators.bitwise_or") {
        return Some("bitwise or (|)");
    }
    if chars_match(&f, "syntax.operators.bitwise_or_assignment") {
        return Some("bitwise or assignment (|=)");
    }
    if chars_match(&f, "syntax.operators.bitwise_xor") {
        return Some("bitwise xor (^)");
    }
    if chars_match(&f, "syntax.operators.bitwise_xor_assignment") {
        return Some("bitwise xor assignment (^=)");
    }
    if chars_match(&f, "syntax.operators.class") {
        return Some("class expression (class {})");
    }
    if chars_match(&f, "syntax.operators.comma") {
        return Some("sequence expression (,)");
    }
    if chars_match(&f, "syntax.operators.conditional") {
        return Some("conditional expression (a ? b : c)");
    }
    if chars_match(&f, "syntax.operators.decrement") {
        return Some("decrement (--)");
    }
    if chars_match(&f, "syntax.operators.delete") {
        return Some("delete operator (delete)");
    }
    if chars_match(&f, "syntax.operators.division") {
        return Some("division (/)");
    }
    if chars_match(&f, "syntax.operators.division_assignment") {
        return Some("division assignment (/=)");
    }
    if chars_match(&f, "syntax.operators.equality") {
        return Some("loose equality (==)");
    }
    if chars_match(&f, "syntax.operators.exponentiation") {
        return Some("exponentiation (**)");
    }
    if chars_match(&f, "syntax.operators.exponentiation_assignment") {
        return Some("exponentiation assignment (**=)");
    }
    if chars_match(&f, "syntax.operators.function") {
        return Some("function expression (function)");
    }
    if chars_match(&f, "syntax.operators.generator_function") {
        return Some("generator function (function*)");
    }
    if chars_match(&f, "syntax.operators.greater_than") {
        return Some("greater than (>)");
    }
    if chars_match(&f, "syntax.operators.greater_than_or_equal") {
        return Some("greater than or equal (>=)");
    }
    if chars_match(&f, "syntax.operators.import") {
        return Some("dynamic import (import())");
    }
    if chars_match(&f, "syntax.operators.in") {
        return Some("in operator (in)");
    }
    if chars_match(&f, "syntax.operators.increment") {
        return Some("increment (++)");
    }
    if chars_match(&f, "syntax.operators.inequality") {
        return Some("loose inequality (!=)");
    }
    if chars_match(&f, "syntax.operators.instanceof") {
        return Some("instanceof operator (instanceof)");
    }
    if chars_match(&f, "syntax.operators.left_shift") {
        return Some("left shift (<<)");
    }
    if chars_match(&f, "syntax.operators.left_shift_assignment") {
        return Some("left shift assignment (<<=)");
    }
    if chars_match(&f, "syntax.operators.less_than") {
        return Some("less than (<)");
    }
    if chars_match(&f, "syntax.operators.less_than_or_equal") {
        return Some("less than or equal (<=)");
    }
    if chars_match(&f, "syntax.operators.logical_and") {
        return Some("logical and (&&)");
    }
    if chars_match(&f, "syntax.operators.logical_and_assignment") {
        return Some("logical and assignment (&&=)");
    }
    if chars_match(&f, "syntax.operators.logical_not") {
        return Some("logical not (!)");
    }
    if chars_match(&f, "syntax.operators.logical_or") {
        return Some("logical or (||)");
    }
    if chars_match(&f, "syntax.operators.logical_or_assignment") {
        return Some("logical or assignment (||=)");
    }
    if chars_match(&f, "syntax.operators.multiplication") {
        return Some("multiplication (*)");
    }
    if chars_match(&f, "syntax.operators.multiplication_assignment") {
        return Some("multiplication assignment (*=)");
    }
    if chars_match(&f, "syntax.operators.new") {
        return Some("new expression (new)");
    }
    if chars_match(&f, "syntax.operators.nullish_coalescing") {
        return Some("nullish coalescing (??)");
    }
    if chars_match(&f, "syntax.operators.nullish_coalescing_assignment") {
        return Some("nullish assignment (??=)");
    }
    if chars_match(&f, "syntax.operators.object_initializer") {
        return Some("object literal ({})");
    }
    if chars_match(&f, "syntax.operators.optional_chaining") {
        return Some("optional chaining (?.)");
    }
    if chars_match(&f, "syntax.operators.remainder") {
        return Some("remainder (%)");
    }
    if chars_match(&f, "syntax.operators.remainder_assignment") {
        return Some("remainder assignment (%=)");
    }
    if chars_match(&f, "syntax.operators.right_shift") {
        return Some("right shift (>>)");
    }
    if chars_match(&f, "syntax.operators.right_shift_assignment") {
        return Some("right shift assignment (>>=)");
    }
    if chars_match(&f, "syntax.operators.spread") {
        return Some("spread syntax (...)");
    }
    if chars_match(&f, "syntax.operators.strict_equality") {
        return Some("strict equality (===)");
    }
    if chars_match(&f, "syntax.operators.strict_inequality") {
        return Some("strict inequality (!==)");
    }
    if chars_match(&f, "syntax.operators.subtraction") {
        return Some("subtraction (-)");
    }
    if chars_match(&f, "syntax.operators.subtraction_assignment") {
        return Some("subtraction assignment (-=)");
    }
    if chars_match(&f, "syntax.operators.super") {
        return Some("super expression (super)");
    }
    if chars_match(&f, "syntax.operators.this") {
        return Some("this expression (this)");
    }
    if chars_match(&f, "syntax.operators.typeof") {
        return Some("typeof operator (typeof)");
    }
    if chars_match(&f, "syntax.operators.unary_negation") {
        return Some("unary negation (-x)");
    }
    if chars_match(&f, "syntax.operators.unary_plus") {
        return Some("unary plus (+x)");
    }
    if chars_match(&f, "syntax.operators.unsigned_right_shift") {
        return Some("unsigned right shift (>>>)");
    }
    if chars_match(&f, "syntax.operators.unsigned_right_shift_assignment") {
        return Some("unsigned right shift assignment (>>>=)");
    }
    if chars_match(&f, "syntax.operators.void") {
        return Some("void operator (void)");
    }
    if chars_match(&f, "syntax.operators.yield") {
        return Some("yield expression (yield)");
    }
    if chars_match(&f, "syntax.statements.await_using") {
        return Some("await using declaration (await using)");
    }
    if chars_match(&f, "syntax.statements.async_function") {
        return Some("async function declaration (async function)");
    }
    if chars_match(&f, "syntax.statements.async_generator_function") {
        return Some("async generator function declaration (async function*)");
    }
    if chars_match(&f, "syntax.statements.block") {
        return Some("block statement ({})");
    }
    if chars_match(&f, "syntax.statements.break") {
        return Some("break statement (break)");
    }
    if chars_match(&f, "syntax.statements.class") {
        return Some("class declaration (class)");
    }
    if chars_match(&f, "syntax.statements.const") {
        return Some("constant declaration (const)");
    }
    if chars_match(&f, "syntax.statements.continue") {
        return Some("continue statement (continue)");
    }
    if chars_match(&f, "syntax.statements.debugger") {
        return Some("debugger statement (debugger)");
    }
    if chars_match(&f, "syntax.statements.do_while") {
        return Some("do while loop (do...while)");
    }
    if chars_match(&f, "syntax.statements.empty") {
        return Some("empty statement (;)");
    }
    if chars_match(&f, "syntax.statements.export") {
        return Some("export declaration (export)");
    }
    if chars_match(&f, "syntax.statements.export.default") {
        return Some("default export (export default)");
    }
    if chars_match(&f, "syntax.statements.export.namespace") {
        return Some("namespace export (export *)");
    }
    if chars_match(&f, "syntax.statements.for") {
        return Some("for loop (for)");
    }
    if chars_match(&f, "syntax.statements.for_in") {
        return Some("for in loop (for...in)");
    }
    if chars_match(&f, "syntax.statements.for_of") {
        return Some("for of loop (for...of)");
    }
    if chars_match(&f, "syntax.statements.function") {
        return Some("function declaration (function)");
    }
    if chars_match(&f, "syntax.statements.generator_function") {
        return Some("generator function declaration (function*)");
    }
    if chars_match(&f, "syntax.statements.if_else") {
        return Some("if statement (if)");
    }
    if chars_match(&f, "syntax.statements.import") {
        return Some("import declaration (import)");
    }
    if chars_match(&f, "syntax.statements.label") {
        return Some("label statement (label:)");
    }
    if chars_match(&f, "syntax.statements.let") {
        return Some("let declaration (let)");
    }
    if chars_match(&f, "syntax.statements.return") {
        return Some("return statement (return)");
    }
    if chars_match(&f, "syntax.statements.switch") {
        return Some("switch statement (switch)");
    }
    if chars_match(&f, "syntax.statements.throw") {
        return Some("throw statement (throw)");
    }
    if chars_match(&f, "syntax.statements.try_catch") {
        return Some("try catch statement (try/catch)");
    }
    if chars_match(&f, "syntax.statements.using") {
        return Some("using declaration (using)");
    }
    if chars_match(&f, "syntax.statements.var") {
        return Some("variable declaration (var)");
    }
    if chars_match(&f, "syntax.statements.while") {
        return Some("while loop (while)");
    }
    if chars_match(&f, "syntax.statements.with") {
        return Some("with statement (with)");
    }
    None
}

/// The roots of Node.js core APIs.
pub open spec fn is_node_api_root(root: Seq<char>) -> bool {
    ||| root == "__dirname"@
    ||| root == "__filename"@
    ||| root == "assert"@
    ||| root == "async_hooks"@
    ||| root == "Buffer"@
    ||| root == "buffer"@
    ||| root == "child_process"@
    ||| root == "cluster"@
    ||| root == "diagnostics_channel"@
    ||| root == "dns"@
    ||| root == "domain"@
    ||| root == "events"@
    ||| root == "fs"@
    ||| root == "fsPromises"@
    ||| root == "http"@
    ||| root == "http2"@
    ||| root == "https"@
    ||| root == "module"@
    ||| root == "net"@
    ||| root == "os"@
    ||| root == "path"@
    ||| root == "perf_hooks"@
    ||| root == "process"@
    ||| root == "punycode"@
    ||| root == "querystring"@
    ||| root == "readline"@
    ||| root == "repl"@
    ||| root == "require"@
    ||| root == "stream"@
    ||| root == "string_decoder"@
    ||| root == "timers"@
    ||| root == "timersPromises"@
    ||| root == "tls"@
    ||| root == "tty"@
    ||| root == "url"@
    ||| root == "util"@
    ||| root == "v8"@
    ||| root == "vm"@
    ||| root == "wasi"@
    ||| root == "worker_threads"@
    ||| root == "zlib"@
}

fn node_api_root(root: &Vec<char>) -> (r: bool)
    ensures
        r == is_node_api_root(root@),
{
    chars_match(root, "__dirname") || chars_match(root, "__filename") || chars_match(root, "assert") || chars_match(root, "async_hooks") || chars_match(root, "Buffer") || chars_match(root, "buffer") || chars_match(root, "child_process") || chars_match(root, "cluster") || chars_match(root, "diagnostics_channel") || chars_match(root, "dns") || chars_match(root, "domain") || chars_match(root, "events") || chars_match(root, "fs") || chars_match(root, "fsPromises") || chars_match(root, "http") || chars_match(root, "http2") || chars_match(root, "https") || chars_match(root, "module") || chars_match(root, "net") || chars_match(root, "os") || chars_match(root, "path") || chars_match(root, "perf_hooks") || chars_match(root, "process") || chars_match(root, "punycode") || chars_match(root, "querystring") || chars_match(root, "readline") || chars_match(root, "repl") || chars_match(root, "require") || chars_match(root, "stream") || chars_match(root, "string_decoder") || chars_match(root, "timers") || chars_match(root, "timersPromises") || chars_match(root, "tls") || chars_match(root, "tty") || chars_match(root, "url") || chars_match(root, "util") || chars_match(root, "v8") || chars_match(root, "vm") || chars_match(root, "wasi") || chars_match(root, "worker_threads") || chars_match(root, "zlib")
}

/// The part of a feature name before its first `.`.
pub open spec fn feature_root(f: Seq<char>) -> Seq<char> {
    f.take(find_from(f, '.', 0))
}

/// Whether `feature` belongs to a Node.js core API such as `fs.cp` or
/// `process`.
pub open spec fn is_node_api_feature_spec(f: Seq<char>) -> bool {
    is_node_api_root(feature_root(f))
}

pub fn is_node_api_feature(feature: &str) -> (r: bool)
    ensures
        r == is_node_api_feature_spec(feature@),
{
    let f = chars_of(feature);
    let mut i: usize = 0;
    while i < f.len() && f[i] != '.'
        invariant
            i <= f@.len(),
            forall|k: int| 0 <= k < i ==> f@[k] != '.',
        decreases f@.len() - i,
    {
        i = i + 1;
    }
    proof {
        crate::text::lemma_find_from_eq(f@, '.', 0, i as int);
    }
    let mut root: Vec<char> = Vec::new();
    let mut k: usize = 0;
    while k < i
        invariant
            k <= i <= f@.len(),
            root@ == f@.take(k as int),
        decreases i - k,
    {
        root.push(f[k]);
        k = k + 1;
        assert(root@ =~= f@.take(k as int));
    }
    node_api_root(&root)
}

} // verus!
