//! The PHP frontend: lowering of PHP syntax trees to the intermediate representation, syntax
//! diagnostics and framework detection.
use crate::findings::{
    Diagnostic, DiagnosticSeverity, DiagnosticView, LocationView, SourceLocation,
};
use crate::ir::{
    defined_count, defined_value, ids, open_functions, used_values, value_step_ok,
    values_well_formed, CallKind, Instruction, InstructionView, LiteralValue, LiteralView,
    ModuleIr, OutputKind, ValueId,
};
use crate::syntax::{
    forest_has_syntax_error, has_syntax_error, parse_php, php_tree_of, SyntaxChild, SyntaxNode,
};
use crate::text::{
    chars_of, contains, eq_ignore_case, equal_ignore_case, has_infix, join3, normalize_call,
    normalize_call_exec, owned, same, trim, trim_exec,
};
use vstd::hash_map::StringHashMap;
use vstd::prelude::*;

verus! {

// ---------------------------------------------------------------------------------------------
// Reading syntax nodes
/// The position among the children of the named child that has `k` named children before it.
fn named_child_index(node: &SyntaxNode, k: usize) -> (r: Option<usize>)
    ensures
        r matches Some(i) ==> i < node.children@.len(),
        match r {
            Some(i) => nth_named(node.children@, k as nat) == Some(i as int),
            None => nth_named(node.children@, k as nat) is None,
        },
{
    let ghost cs = node.children@;
    let mut seen: usize = 0;
    let mut i: usize = 0;
    assert(cs.subrange(0, 0) =~= Seq::<SyntaxChild>::empty());
    while i < node.children.len()
        invariant
            i <= node.children@.len(),
            cs == node.children@,
            seen <= i,
            seen == named_count(cs.subrange(0, i as int)),
            nth_named(cs.subrange(0, i as int), k as nat) is None,
        decreases node.children@.len() - i,
    {
        assert(cs.subrange(0, i + 1).drop_last() =~= cs.subrange(0, i as int));
        if node.children[i].node.named {
            if seen == k {
                proof {
                    lemma_nth_named_stable(cs, k as nat, i + 1);
                }
                return Some(i);
            }
            seen += 1;
        }
        i += 1;
    }
    assert(cs.subrange(0, i as int) =~= cs);
    None
}

/// The position among the children of the last named child.
fn last_named_index(node: &SyntaxNode) -> (r: Option<usize>)
    ensures
        r matches Some(i) ==> i < node.children@.len(),
        match r {
            Some(i) => last_named(node.children@) == Some(i as int),
            None => last_named(node.children@) is None,
        },
{
    let ghost cs = node.children@;
    let mut i: usize = node.children.len();
    assert(cs.subrange(0, i as int) =~= cs);
    while i > 0
        invariant
            i <= node.children@.len(),
            cs == node.children@,
            last_named(cs) == last_named(cs.subrange(0, i as int)),
        decreases i,
    {
        let ghost s = cs.subrange(0, i as int);
        assert(s.drop_last() =~= cs.subrange(0, i - 1));
        assert(s.last() == cs[i - 1]);
        if node.children[i - 1].node.named {
            return Some(i - 1);
        }
        i -= 1;
    }
    assert(cs.subrange(0, 0) =~= Seq::<SyntaxChild>::empty());
    None
}

/// The position of the first child in the grammar field `field`.
fn field_index(node: &SyntaxNode, field: &str) -> (r: Option<usize>)
    ensures
        r matches Some(i) ==> i < node.children@.len(),
        match r {
            Some(i) => field_child(node.children@, field@) == Some(i as int),
            None => field_child(node.children@, field@) is None,
        },
{
    let ghost cs = node.children@;
    let ghost p = field_test(field@);
    let mut i: usize = 0;
    assert(cs.subrange(0, 0) =~= Seq::<SyntaxChild>::empty());
    while i < node.children.len()
        invariant
            i <= node.children@.len(),
            cs == node.children@,
            p == field_test(field@),
            first_where(cs.subrange(0, i as int), p) is None,
        decreases node.children@.len() - i,
    {
        assert(cs.subrange(0, i + 1).drop_last() =~= cs.subrange(0, i as int));
        assert(cs.subrange(0, i + 1).last() == cs[i as int]);
        match &node.children[i].field {
            Some(f) => {
                if same(f.as_str(), field) {
                    proof {
                        lemma_first_where_stable(cs, p, i + 1);
                    }
                    return Some(i);
                }
            },
            None => {},
        }
        i += 1;
    }
    assert(cs.subrange(0, i as int) =~= cs);
    None
}

/// The trimmed source text of a node.
fn node_text(node: &SyntaxNode) -> (r: Option<String>)
    ensures
        r.deep_view() == text_of(*node),
{
    match &node.text {
        Some(t) => Some(trim_exec(t.as_str())),
        None => None,
    }
}

fn text_or(text: Option<String>, default: &str) -> (r: String)
    ensures
        r@ == text_or_default(text.deep_view(), default@),
{
    match text {
        Some(t) => t,
        None => owned(default),
    }
}

fn kind_is(node: &SyntaxNode, kind: &str) -> (r: bool)
    ensures
        r == (node.kind@ == kind@),
{
    same(node.kind.as_str(), kind)
}

/// The source location of a node in `path`, with one-based lines and columns.
fn node_location(node: &SyntaxNode, path: &String) -> (r: SourceLocation)
    ensures
        r@ == location_of(*node, path@),
{
    SourceLocation {
        path: path.clone(),
        start_line: node.start_row.saturating_add(1),
        start_column: node.start_column.saturating_add(1),
        end_line: node.end_row.saturating_add(1),
        end_column: node.end_column.saturating_add(1),
    }
}

/// The names of the parameters of a parameter list.
fn parameter_names(parameters: &SyntaxNode) -> (r: Vec<String>)
    ensures
        r.deep_view() == parameter_list(parameters.children@),
{
    let ghost cs = parameters.children@;
    let mut names: Vec<String> = Vec::new();
    let mut i: usize = 0;
    while i < parameters.children.len()
        invariant
            i <= cs.len(),
            cs == parameters.children@,
            names.deep_view() == parameter_list(cs.subrange(0, i as int)),
        decreases parameters.children@.len() - i,
    {
        let ghost before = names.deep_view();
        assert(cs.subrange(0, i + 1).drop_last() =~= cs.subrange(0, i as int));
        assert(cs.subrange(0, i + 1).last() == cs[i as int]);
        let parameter = &parameters.children[i].node;
        if parameter.named {
            match field_index(parameter, "name") {
                Some(k) => match node_text(&parameter.children[k].node) {
                    Some(name) => {
                        names.push(name);
                        assert(names.deep_view() =~= before.push(names@[names@.len() - 1]@));
                    },
                    None => {},
                },
                None => {},
            }
        }
        i += 1;
    }
    assert(cs.subrange(0, i as int) =~= cs);
    names
}

/// The canonical name of a built-in database class, `PDO` or `mysqli`, up to ASCII case and a
/// leading namespace separator.
fn canonical_database_class(name: &str) -> (r: Option<String>)
    ensures
        r.deep_view() == database_class(name@),
{
    let normalized = normalize_call_exec(name);
    if contains(normalized.as_str(), "\\") {
        return None;
    }
    if equal_ignore_case(normalized.as_str(), "pdo") {
        Some(owned("PDO"))
    } else if equal_ignore_case(normalized.as_str(), "mysqli") {
        Some(owned("mysqli"))
    } else {
        None
    }
}

/// The database class an object creation instantiates.
fn object_creation_class(node: &SyntaxNode) -> (r: Option<String>)
    ensures
        r.deep_view() == created_class(*node),
{
    let ghost cs = node.children@;
    let ghost p = class_name_test();
    let mut i: usize = 0;
    assert(cs.subrange(0, 0) =~= Seq::<SyntaxChild>::empty());
    while i < node.children.len()
        invariant
            i <= cs.len(),
            cs == node.children@,
            p == class_name_test(),
            first_where(cs.subrange(0, i as int), p) is None,
        decreases node.children@.len() - i,
    {
        assert(cs.subrange(0, i + 1).drop_last() =~= cs.subrange(0, i as int));
        assert(cs.subrange(0, i + 1).last() == cs[i as int]);
        let child = &node.children[i].node;
        if child.named && (kind_is(child, "name") || kind_is(child, "qualified_name") || kind_is(
            child,
            "relative_name",
        )) {
            proof {
                lemma_first_where_stable(cs, p, i + 1);
            }
            return match node_text(child) {
                Some(name) => canonical_database_class(name.as_str()),
                None => None,
            };
        }
        i += 1;
    }
    assert(cs.subrange(0, i as int) =~= cs);
    None
}

/// `$` followed by at least one ASCII letter, digit or underscore, and nothing else.
pub open spec fn simple_variable_name(name: Seq<char>) -> bool {
    name.len() > 1 && name[0] == '$' && forall|i: int|
        1 <= i < name.len() ==> crate::rules::is_word_char(#[trigger] name[i])
}

/// Whether a variable name is a plain `$name`.
pub fn is_simple_variable_name(name: &str) -> (r: bool)
    ensures
        r == simple_variable_name(name@),
{
    let cs = chars_of(name);
    if cs.len() < 2 || cs[0] != '$' {
        return false;
    }
    let mut i: usize = 1;
    while i < cs.len()
        invariant
            1 <= i <= cs.len(),
            cs@ == name@,
            forall|j: int| 1 <= j < i ==> crate::rules::is_word_char(#[trigger] cs@[j]),
        decreases cs.len() - i,
    {
        let c = cs[i];
        if !(('a' <= c && c <= 'z') || ('A' <= c && c <= 'Z') || ('0' <= c && c <= '9') || c
            == '_') {
            return false;
        }
        i += 1;
    }
    true
}

// ---------------------------------------------------------------------------------------------
// What the lowering computes
/// The position of the first child that satisfies `p`.
pub open spec fn first_where(cs: Seq<SyntaxChild>, p: spec_fn(SyntaxChild) -> bool) -> Option<int>
    decreases cs.len(),
{
    if cs.len() == 0 {
        None
    } else {
        match first_where(cs.drop_last(), p) {
            Some(i) => Some(i),
            None => if p(cs.last()) {
                Some(cs.len() - 1)
            } else {
                None
            },
        }
    }
}

/// The number of named children.
pub open spec fn named_count(cs: Seq<SyntaxChild>) -> nat
    decreases cs.len(),
{
    if cs.len() == 0 {
        0
    } else {
        named_count(cs.drop_last()) + if cs.last().node.named {
            1nat
        } else {
            0nat
        }
    }
}

/// The position of the named child that has `k` named children before it.
pub open spec fn nth_named(cs: Seq<SyntaxChild>, k: nat) -> Option<int>
    decreases cs.len(),
{
    if cs.len() == 0 {
        None
    } else {
        match nth_named(cs.drop_last(), k) {
            Some(i) => Some(i),
            None => if cs.last().node.named && named_count(cs.drop_last()) == k {
                Some(cs.len() - 1)
            } else {
                None
            },
        }
    }
}

/// The position of the last named child.
pub open spec fn last_named(cs: Seq<SyntaxChild>) -> Option<int>
    decreases cs.len(),
{
    if cs.len() == 0 {
        None
    } else if cs.last().node.named {
        Some(cs.len() - 1)
    } else {
        last_named(cs.drop_last())
    }
}

/// The child fills the grammar field `field`.
pub open spec fn in_field(c: SyntaxChild, field: Seq<char>) -> bool {
    c.field is Some && c.field->0@ == field
}

/// The test for a child in the grammar field `field`.
pub open spec fn field_test(field: Seq<char>) -> spec_fn(SyntaxChild) -> bool {
    |c: SyntaxChild| in_field(c, field)
}

/// The position of the first child in the grammar field `field`.
pub open spec fn field_child(cs: Seq<SyntaxChild>, field: Seq<char>) -> Option<int> {
    first_where(cs, field_test(field))
}

/// The trimmed source text of a node.
pub open spec fn text_of(node: SyntaxNode) -> Option<Seq<char>> {
    match node.text {
        Some(t) => Some(trim(t@)),
        None => None,
    }
}

/// A text, or `default` if there is none.
pub open spec fn text_or_default(t: Option<Seq<char>>, default: Seq<char>) -> Seq<char> {
    match t {
        Some(t) => t,
        None => default,
    }
}

/// The trimmed text of the child in the grammar field `field`, or `default`.
pub open spec fn field_text(node: SyntaxNode, field: Seq<char>, default: Seq<char>) -> Seq<char> {
    match field_child(node.children@, field) {
        Some(i) => text_or_default(text_of(node.children@[i].node), default),
        None => default,
    }
}

/// The source location of a node in `path`, with one-based lines and columns.
pub open spec fn location_of(node: SyntaxNode, path: Seq<char>) -> LocationView {
    LocationView {
        path,
        start_line: node.start_row.saturating_add(1),
        start_column: node.start_column.saturating_add(1),
        end_line: node.end_row.saturating_add(1),
        end_column: node.end_column.saturating_add(1),
    }
}

/// The names of the parameters in a list of parameter nodes.
pub open spec fn parameter_list(cs: Seq<SyntaxChild>) -> Seq<Seq<char>>
    decreases cs.len(),
{
    if cs.len() == 0 {
        seq![]
    } else {
        let names = parameter_list(cs.drop_last());
        let p = cs.last().node;
        if p.named {
            match field_child(p.children@, "name"@) {
                Some(k) => match text_of(p.children@[k].node) {
                    Some(n) => names.push(n),
                    None => names,
                },
                None => names,
            }
        } else {
            names
        }
    }
}

/// `PDO` or `mysqli` for a class name that is one of them up to ASCII case and leading
/// namespace separators, and holds no other namespace separator.
pub open spec fn database_class(name: Seq<char>) -> Option<Seq<char>> {
    let n = normalize_call(name);
    if has_infix(n, "\\"@) {
        None
    } else if eq_ignore_case(n, "pdo"@) {
        Some("PDO"@)
    } else if eq_ignore_case(n, "mysqli"@) {
        Some("mysqli"@)
    } else {
        None
    }
}

/// A named child that names a class.
pub open spec fn is_class_name(c: SyntaxChild) -> bool {
    c.node.named && (c.node.kind@ == "name"@ || c.node.kind@ == "qualified_name"@ || c.node.kind@
        == "relative_name"@)
}

/// The test for a named child that names a class.
pub open spec fn class_name_test() -> spec_fn(SyntaxChild) -> bool {
    |c: SyntaxChild| is_class_name(c)
}

/// The database class that an object creation instantiates.
pub open spec fn created_class(node: SyntaxNode) -> Option<Seq<char>> {
    match first_where(node.children@, class_name_test()) {
        Some(i) => match text_of(node.children@[i].node) {
            Some(n) => database_class(n),
            None => None,
        },
        None => None,
    }
}

/// The database class of an expression, given the classes of variables: a `new PDO` or
/// `new mysqli`, a variable known to hold one, or either of these in parentheses.
pub open spec fn inferred_class(types: Map<Seq<char>, Seq<char>>, node: SyntaxNode) -> Option<
    Seq<char>,
>
    decreases node,
{
    if node.kind@ == "object_creation_expression"@ {
        created_class(node)
    } else if node.kind@ == "variable_name"@ {
        match text_of(node) {
            Some(n) => if types.contains_key(n) {
                Some(types[n])
            } else {
                None
            },
            None => None,
        }
    } else if node.kind@ == "parenthesized_expression"@ || node.kind@ == "argument"@ {
        match nth_named(node.children@, 0) {
            Some(i) => if 0 <= i < node.children@.len() {
                inferred_class(types, node.children@[i].node)
            } else {
                None
            },
            None => None,
        }
    } else {
        None
    }
}

/// A binary expression whose operator is `.`.
pub open spec fn concatenates(node: SyntaxNode) -> bool {
    match field_child(node.children@, "operator"@) {
        Some(i) => text_of(node.children@[i].node) == Some("."@),
        None => false,
    }
}

/// The target of a method call: the method name, qualified with the receiver's database class
/// if it has one.
pub open spec fn method_target(types: Map<Seq<char>, Seq<char>>, node: SyntaxNode) -> Seq<char> {
    let method = field_text(node, "name"@, "<dynamic>"@);
    let receiver = match field_child(node.children@, "object"@) {
        Some(i) => inferred_class(types, node.children@[i].node),
        None => None,
    };
    match receiver {
        Some(c) => c + "::"@ + method,
        None => method,
    }
}

/// The target and kind of a call expression.
pub open spec fn call_target_of(types: Map<Seq<char>, Seq<char>>, node: SyntaxNode) -> (
    Seq<char>,
    CallKind,
) {
    if node.kind@ == "function_call_expression"@ {
        match field_child(node.children@, "function"@) {
            Some(i) => {
                let f = node.children@[i].node;
                (
                    text_or_default(text_of(f), "<dynamic>"@),
                    if f.kind@ == "name"@ || f.kind@ == "qualified_name"@ || f.kind@
                        == "relative_name"@ {
                        CallKind::Function
                    } else {
                        CallKind::Dynamic
                    },
                )
            },
            None => ("<dynamic>"@, CallKind::Dynamic),
        }
    } else if node.kind@ == "member_call_expression"@ {
        (method_target(types, node), CallKind::Method)
    } else if node.kind@ == "nullsafe_member_call_expression"@ {
        (method_target(types, node), CallKind::NullsafeMethod)
    } else if node.kind@ == "scoped_call_expression"@ {
        (field_text(node, "name"@, "<dynamic>"@), CallKind::StaticMethod)
    } else {
        ("<dynamic>"@, CallKind::Dynamic)
    }
}

/// The state of a lowering: the next value identity, whether the identities ran out, the
/// instructions so far and the database class of each variable known to hold one.
pub struct LowerState {
    pub next: u32,
    pub exhausted: bool,
    pub instructions: Seq<InstructionView>,
    pub types: Map<Seq<char>, Seq<char>>,
}

/// The state before anything is lowered.
pub open spec fn lowering_start() -> LowerState {
    LowerState { next: 0, exhausted: false, instructions: seq![], types: Map::empty() }
}

/// The state after asking for a value identity: exhausted if none is left.
pub open spec fn reserve(st: LowerState) -> LowerState {
    if st.exhausted || st.next == u32::MAX {
        LowerState { exhausted: true, ..st }
    } else {
        st
    }
}

/// The state with one more instruction.
pub open spec fn append(st: LowerState, x: InstructionView) -> LowerState {
    LowerState { instructions: st.instructions.push(x), ..st }
}

/// The state and value after an instruction that defines the next value, if one is left.
pub open spec fn define(st: LowerState, x: spec_fn(ValueId) -> InstructionView) -> (
    LowerState,
    ValueId,
) {
    let s = reserve(st);
    if s.exhausted {
        (s, ValueId(0))
    } else {
        (
            LowerState {
                next: (s.next + 1) as u32,
                instructions: s.instructions.push(x(ValueId(s.next))),
                ..s
            },
            ValueId(s.next),
        )
    }
}

/// An expression the lowering does not model.
pub open spec fn opaque_model(st: LowerState, node: SyntaxNode, path: Seq<char>) -> (
    LowerState,
    ValueId,
) {
    define(
        st,
        |v: ValueId|
            InstructionView::Opaque {
                output: v,
                expression: text_or_default(text_of(node), ""@),
                location: location_of(node, path),
            },
    )
}

/// A literal.
pub open spec fn literal_model(
    st: LowerState,
    node: SyntaxNode,
    path: Seq<char>,
    value: LiteralView,
) -> (LowerState, ValueId) {
    define(
        st,
        |v: ValueId| InstructionView::Literal { output: v, value, location: location_of(node, path) },
    )
}

/// The lowering of an expression: the state after it and the value it computes.
pub open spec fn expression_model(st: LowerState, node: SyntaxNode, path: Seq<char>) -> (
    LowerState,
    ValueId,
)
    decreases node, 14nat, 0int,
{
    let k = node.kind@;
    if k == "variable_name"@ || k == "dynamic_variable_name"@ {
        define(
            st,
            |v: ValueId|
                InstructionView::VariableRead {
                    output: v,
                    name: text_or_default(text_of(node), "<unknown>"@),
                    location: location_of(node, path),
                },
        )
    } else if k == "string"@ || k == "encapsed_string"@ || k == "heredoc"@ || k == "nowdoc"@ {
        literal_model(st, node, path, LiteralView::String(text_or_default(text_of(node), ""@)))
    } else if k == "integer"@ {
        literal_model(st, node, path, LiteralView::Integer(text_or_default(text_of(node), ""@)))
    } else if k == "float"@ {
        literal_model(st, node, path, LiteralView::Float(text_or_default(text_of(node), ""@)))
    } else if k == "boolean"@ {
        literal_model(
            st,
            node,
            path,
            LiteralView::Boolean(
                match text_of(node) {
                    Some(t) => eq_ignore_case(t, "true"@),
                    None => false,
                },
            ),
        )
    } else if k == "null"@ {
        literal_model(st, node, path, LiteralView::Null)
    } else if k == "print_intrinsic"@ {
        print_model(st, node, path)
    } else if k == "assignment_expression"@ || k == "reference_assignment_expression"@ {
        assignment_model(st, node, path)
    } else if k == "binary_expression"@ && concatenates(node) {
        concatenation_model(st, node, path)
    } else if k == "subscript_expression"@ {
        index_model(st, node, path)
    } else if k == "function_call_expression"@ || k == "member_call_expression"@ || k
        == "nullsafe_member_call_expression"@ || k == "scoped_call_expression"@ {
        call_model(st, node, path)
    } else if k == "parenthesized_expression"@ || k == "argument"@ {
        match nth_named(node.children@, 0) {
            Some(i) => if 0 <= i < node.children@.len() {
                expression_model(st, node.children@[i].node, path)
            } else {
                opaque_model(st, node, path)
            },
            None => opaque_model(st, node, path),
        }
    } else {
        opaque_model(st, node, path)
    }
}

/// The lowering of the named child that has `k` named children before it, or of `node` as an
/// opaque expression if there is none.
pub open spec fn child_or_opaque_model(st: LowerState, node: SyntaxNode, path: Seq<char>, k: nat) -> (
    LowerState,
    ValueId,
)
    decreases node, 9nat, 0int,
{
    match nth_named(node.children@, k) {
        Some(i) => if 0 <= i < node.children@.len() {
            expression_model(st, node.children@[i].node, path)
        } else {
            opaque_model(st, node, path)
        },
        None => opaque_model(st, node, path),
    }
}

/// The lowering of the child in the grammar field `field`, or of `node` as an opaque
/// expression if there is none.
pub open spec fn field_or_opaque_model(
    st: LowerState,
    node: SyntaxNode,
    path: Seq<char>,
    field: Seq<char>,
) -> (LowerState, ValueId)
    decreases node, 9nat, 0int,
{
    match field_child(node.children@, field) {
        Some(i) => if 0 <= i < node.children@.len() {
            expression_model(st, node.children@[i].node, path)
        } else {
            opaque_model(st, node, path)
        },
        None => opaque_model(st, node, path),
    }
}

/// `print`: an output instruction that defines the value `print` returns.
pub open spec fn print_model(st: LowerState, node: SyntaxNode, path: Seq<char>) -> (
    LowerState,
    ValueId,
)
    decreases node, 12nat, 0int,
{
    let (s1, value) = child_or_opaque_model(st, node, path, 0);
    define(
        s1,
        |v: ValueId|
            InstructionView::Output {
                output: Some(v),
                output_kind: OutputKind::Print,
                values: seq![value],
                location: location_of(node, path),
            },
    )
}

/// An assignment: the assigned value, then the assignment; a plain variable assigned a
/// database object takes its class, and loses any class otherwise.
pub open spec fn assignment_model(st: LowerState, node: SyntaxNode, path: Seq<char>) -> (
    LowerState,
    ValueId,
)
    decreases node, 12nat, 0int,
{
    let target = field_text(node, "left"@, "<unknown>"@);
    let inferred = match field_child(node.children@, "right"@) {
        Some(i) => inferred_class(st.types, node.children@[i].node),
        None => None,
    };
    let (s1, right) = field_or_opaque_model(st, node, path, "right"@);
    let s2 = if simple_variable_name(target) {
        LowerState {
            types: match inferred {
                Some(c) => s1.types.insert(target, c),
                None => s1.types.remove(target),
            },
            ..s1
        }
    } else {
        s1
    };
    if s2.exhausted {
        (s2, right)
    } else {
        (
            append(
                s2,
                InstructionView::Assignment { target, value: right, location: location_of(node, path) },
            ),
            right,
        )
    }
}

/// The lowering of the child in the grammar field `field`, if there is one, appended to
/// `values`.
pub open spec fn optional_field_model(
    st: LowerState,
    node: SyntaxNode,
    path: Seq<char>,
    field: Seq<char>,
    values: Seq<ValueId>,
) -> (LowerState, Seq<ValueId>)
    decreases node, 9nat, 0int,
{
    match field_child(node.children@, field) {
        Some(i) => if 0 <= i < node.children@.len() {
            let (s, v) = expression_model(st, node.children@[i].node, path);
            (s, values.push(v))
        } else {
            (st, values)
        },
        None => (st, values),
    }
}

/// A concatenation of its left and right operands, those that are present.
pub open spec fn concatenation_model(st: LowerState, node: SyntaxNode, path: Seq<char>) -> (
    LowerState,
    ValueId,
)
    decreases node, 12nat, 0int,
{
    let (s1, left) = optional_field_model(st, node, path, "left"@, seq![]);
    let (s2, operands) = optional_field_model(s1, node, path, "right"@, left);
    define(
        s2,
        |v: ValueId|
            InstructionView::Concatenate { output: v, operands, location: location_of(node, path) },
    )
}

/// An index read: the collection, the index if present, then the read.
pub open spec fn index_model(st: LowerState, node: SyntaxNode, path: Seq<char>) -> (
    LowerState,
    ValueId,
)
    decreases node, 12nat, 0int,
{
    let (s1, collection) = child_or_opaque_model(st, node, path, 0);
    let (s2, index) = match nth_named(node.children@, 1) {
        Some(i) => if 0 <= i < node.children@.len() {
            let (s, v) = expression_model(s1, node.children@[i].node, path);
            (s, Some(v))
        } else {
            (s1, None)
        },
        None => (s1, None),
    };
    define(
        s2,
        |v: ValueId|
            InstructionView::IndexRead {
                output: v,
                collection,
                index,
                location: location_of(node, path),
            },
    )
}

/// A call: its arguments in order, then the call.
pub open spec fn call_model(st: LowerState, node: SyntaxNode, path: Seq<char>) -> (
    LowerState,
    ValueId,
)
    decreases node, 12nat, 0int,
{
    let (target, kind) = call_target_of(st.types, node);
    let (s1, arguments) = match field_child(node.children@, "arguments"@) {
        Some(a) => if 0 <= a < node.children@.len() {
            let list = node.children@[a].node;
            arguments_model(st, list, path, list.children@.len() as int)
        } else {
            (st, seq![])
        },
        None => (st, seq![]),
    };
    define(
        s1,
        |v: ValueId|
            InstructionView::Call {
                output: v,
                target,
                call_kind: kind,
                arguments,
                location: location_of(node, path),
            },
    )
}

/// The arguments among the first `n` children of an argument list.
pub open spec fn arguments_model(st: LowerState, list: SyntaxNode, path: Seq<char>, n: int) -> (
    LowerState,
    Seq<ValueId>,
)
    decreases list, 11nat, n,
{
    if n <= 0 || n > list.children@.len() {
        (st, seq![])
    } else {
        let (s1, arguments) = arguments_model(st, list, path, n - 1);
        let (s2, a) = argument_model(s1, list.children@[n - 1].node, path);
        match a {
            Some(v) => (s2, arguments.push(v)),
            None => (s2, arguments),
        }
    }
}

/// An argument: the value of its last named child.
pub open spec fn argument_model(st: LowerState, argument: SyntaxNode, path: Seq<char>) -> (
    LowerState,
    Option<ValueId>,
)
    decreases argument, 10nat, 0int,
{
    if argument.named && argument.kind@ == "argument"@ {
        match last_named(argument.children@) {
            Some(k) => if 0 <= k < argument.children@.len() {
                let (s, v) = expression_model(st, argument.children@[k].node, path);
                (s, Some(v))
            } else {
                (st, None)
            },
            None => (st, None),
        }
    } else {
        (st, None)
    }
}

/// The values of one element of an `echo`: one per element of a comma-separated sequence,
/// appended to `values`.
pub open spec fn echo_value_model(
    st: LowerState,
    node: SyntaxNode,
    path: Seq<char>,
    values: Seq<ValueId>,
) -> (LowerState, Seq<ValueId>)
    decreases node, 16nat, 0int,
{
    if node.kind@ != "sequence_expression"@ {
        let (s, v) = expression_model(st, node, path);
        (s, values.push(v))
    } else {
        echo_children_model(st, node, path, values, node.children@.len() as int)
    }
}

/// The values of the named ones among the first `n` children, appended to `values`.
pub open spec fn echo_children_model(
    st: LowerState,
    node: SyntaxNode,
    path: Seq<char>,
    values: Seq<ValueId>,
    n: int,
) -> (LowerState, Seq<ValueId>)
    decreases node, 15nat, n,
{
    if n <= 0 || n > node.children@.len() {
        (st, values)
    } else {
        let (s1, vs) = echo_children_model(st, node, path, values, n - 1);
        let c = node.children@[n - 1].node;
        if c.named {
            echo_value_model(s1, c, path, vs)
        } else {
            (s1, vs)
        }
    }
}

/// `echo`: its values, then one output instruction.
pub open spec fn echo_model(st: LowerState, node: SyntaxNode, path: Seq<char>) -> LowerState
    decreases node, 18nat, 0int,
{
    let (s1, values) = echo_children_model(st, node, path, seq![], node.children@.len() as int);
    if s1.exhausted {
        s1
    } else {
        append(
            s1,
            InstructionView::Output {
                output: None,
                output_kind: OutputKind::Echo,
                values,
                location: location_of(node, path),
            },
        )
    }
}

/// A named function: its start, its body with no variable classes known, and its end; the
/// caller's variable classes are kept.
pub open spec fn function_model(st: LowerState, node: SyntaxNode, path: Seq<char>) -> LowerState
    decreases node, 18nat, 0int,
{
    let name = field_text(node, "name"@, "<anonymous>"@);
    let parameters = match field_child(node.children@, "parameters"@) {
        Some(i) => parameter_list(node.children@[i].node.children@),
        None => seq![],
    };
    if st.exhausted {
        st
    } else {
        let location = location_of(node, path);
        let s1 = LowerState {
            instructions: st.instructions.push(
                InstructionView::FunctionStart { name, parameters, location },
            ),
            types: Map::empty(),
            ..st
        };
        let s2 = match field_child(node.children@, "body"@) {
            Some(i) => if 0 <= i < node.children@.len() {
                node_model(s1, node.children@[i].node, path)
            } else {
                s1
            },
            None => s1,
        };
        let s3 = LowerState { types: st.types, ..s2 };
        if s3.exhausted {
            s3
        } else {
            append(s3, InstructionView::FunctionEnd { name, location })
        }
    }
}

/// The lowering of a statement or any other node.
pub open spec fn node_model(st: LowerState, node: SyntaxNode, path: Seq<char>) -> LowerState
    decreases node, 20nat, 0int,
{
    let k = node.kind@;
    if k == "function_definition"@ {
        function_model(st, node, path)
    } else if k == "echo_statement"@ {
        echo_model(st, node, path)
    } else if k == "assignment_expression"@ || k == "reference_assignment_expression"@ {
        assignment_model(st, node, path).0
    } else if k == "return_statement"@ {
        let (s1, value) = match nth_named(node.children@, 0) {
            Some(i) => if 0 <= i < node.children@.len() {
                let (s, v) = expression_model(st, node.children@[i].node, path);
                (s, Some(v))
            } else {
                (st, None)
            },
            None => (st, None),
        };
        if s1.exhausted {
            s1
        } else {
            append(s1, InstructionView::Return { value, location: location_of(node, path) })
        }
    } else if k == "expression_statement"@ {
        match nth_named(node.children@, 0) {
            Some(i) => if 0 <= i < node.children@.len() {
                expression_model(st, node.children@[i].node, path).0
            } else {
                st
            },
            None => st,
        }
    } else {
        children_model(st, node, path, node.children@.len() as int)
    }
}

/// The lowering of the named ones among the first `n` children.
pub open spec fn children_model(st: LowerState, node: SyntaxNode, path: Seq<char>, n: int) -> LowerState
    decreases node, 19nat, n,
{
    if n <= 0 || n > node.children@.len() {
        st
    } else {
        let s1 = children_model(st, node, path, n - 1);
        let c = node.children@[n - 1].node;
        if c.named {
            node_model(s1, c, path)
        } else {
            s1
        }
    }
}

proof fn lemma_first_where_stable(cs: Seq<SyntaxChild>, p: spec_fn(SyntaxChild) -> bool, n: int)
    requires
        0 <= n <= cs.len(),
        first_where(cs.subrange(0, n), p) is Some,
    ensures
        first_where(cs, p) == first_where(cs.subrange(0, n), p),
    decreases cs.len() - n,
{
    if n < cs.len() {
        assert(cs.subrange(0, n + 1).drop_last() =~= cs.subrange(0, n));
        lemma_first_where_stable(cs, p, n + 1);
    } else {
        assert(cs.subrange(0, n) =~= cs);
    }
}

proof fn lemma_nth_named_stable(cs: Seq<SyntaxChild>, k: nat, n: int)
    requires
        0 <= n <= cs.len(),
        nth_named(cs.subrange(0, n), k) is Some,
    ensures
        nth_named(cs, k) == nth_named(cs.subrange(0, n), k),
    decreases cs.len() - n,
{
    if n < cs.len() {
        assert(cs.subrange(0, n + 1).drop_last() =~= cs.subrange(0, n));
        lemma_nth_named_stable(cs, k, n + 1);
    } else {
        assert(cs.subrange(0, n) =~= cs);
    }
}

// ---------------------------------------------------------------------------------------------
// Lowering
struct PhpLowerer {
    path: String,
    next_value: u32,
    exhausted: bool,
    instructions: Vec<Instruction>,
    variable_types: StringHashMap<String>,
}

impl PhpLowerer {
    /// The state of this lowering.
    spec fn model(&self) -> LowerState {
        LowerState {
            next: self.next_value,
            exhausted: self.exhausted,
            instructions: self.instructions.deep_view(),
            types: self.variable_types@.map_values(|t: String| t@),
        }
    }

    /// Unless the value identities ran out, the counter is the number of defined values and
    /// the instructions are well formed.
    spec fn ok(&self) -> bool {
        !self.exhausted ==> self.next_value == defined_count(self.instructions@)
            && values_well_formed(self.instructions@)
    }

    /// `self` continues `old` without opening or closing functions.
    spec fn continues(&self, old: &Self) -> bool {
        &&& self.ok()
        &&& old.exhausted ==> self.exhausted
        &&& !self.exhausted ==> old.next_value <= self.next_value && open_functions(
            self.instructions@,
        ) == open_functions(old.instructions@)
    }

    fn emit(&mut self, x: Instruction)
        requires
            old(self).ok(),
            !old(self).exhausted,
            value_step_ok(x, old(self).next_value as nat),
            !(x is FunctionStart),
            !(x is FunctionEnd),
            defined_value(x) is None,
        ensures
            final(self).continues(old(self)),
            !final(self).exhausted,
            final(self).next_value == old(self).next_value,
            final(self).path == old(self).path,
            final(self).model() == append(old(self).model(), x.deep_view()),
    {
        let ghost before = self.instructions@;
        let ghost view = self.instructions.deep_view();
        self.instructions.push(x);
        assert(self.instructions@.drop_last() =~= before);
        assert(self.instructions.deep_view() =~= view.push(x.deep_view()));
    }

    /// Appends an instruction that defines the next value.
    fn emit_defining(&mut self, x: Instruction)
        requires
            old(self).ok(),
            !old(self).exhausted,
            old(self).next_value < u32::MAX,
            value_step_ok(x, old(self).next_value as nat),
            defined_value(x) == Some(old(self).next_value),
            !(x is FunctionStart),
            !(x is FunctionEnd),
        ensures
            final(self).continues(old(self)),
            !final(self).exhausted,
            final(self).next_value == old(self).next_value + 1,
            final(self).path == old(self).path,
            final(self).model() == (LowerState {
                next: (old(self).next_value + 1) as u32,
                instructions: old(self).model().instructions.push(x.deep_view()),
                ..old(self).model()
            }),
    {
        let ghost before = self.instructions@;
        let ghost view = self.instructions.deep_view();
        self.instructions.push(x);
        assert(self.instructions@.drop_last() =~= before);
        assert(self.instructions.deep_view() =~= view.push(x.deep_view()));
        self.next_value = self.next_value + 1;
    }

    /// Whether a value identity is left; marks the lowering exhausted otherwise.
    fn can_define(&mut self) -> (r: bool)
        requires
            old(self).ok(),
        ensures
            final(self).continues(old(self)),
            final(self).path == old(self).path,
            final(self).next_value == old(self).next_value,
            r == !final(self).exhausted,
            r ==> final(self).next_value < u32::MAX && *final(self) == *old(self),
            final(self).model() == reserve(old(self).model()),
    {
        if self.exhausted || self.next_value == u32::MAX {
            self.exhausted = true;
            false
        } else {
            true
        }
    }

    fn lower_opaque(&mut self, node: &SyntaxNode) -> (r: ValueId)
        requires
            old(self).ok(),
        ensures
            final(self).continues(old(self)),
            final(self).path == old(self).path,
            !final(self).exhausted ==> r.0 < final(self).next_value,
            (final(self).model(), r) == opaque_model(old(self).model(), *node, old(self).path@),
    {
        if !self.can_define() {
            return ValueId(0);
        }
        let output = ValueId(self.next_value);
        let x = Instruction::Opaque {
            output,
            expression: text_or(node_text(node), ""),
            location: node_location(node, &self.path),
        };
        self.emit_defining(x);
        output
    }

    fn lower_literal(&mut self, node: &SyntaxNode, value: LiteralValue) -> (r: ValueId)
        requires
            old(self).ok(),
        ensures
            final(self).continues(old(self)),
            final(self).path == old(self).path,
            !final(self).exhausted ==> r.0 < final(self).next_value,
            (final(self).model(), r) == literal_model(
                old(self).model(),
                *node,
                old(self).path@,
                value.deep_view(),
            ),
    {
        if !self.can_define() {
            return ValueId(0);
        }
        let output = ValueId(self.next_value);
        let ghost literal = value.deep_view();
        let x = Instruction::Literal { output, value, location: node_location(node, &self.path) };
        assert(x.deep_view() == (InstructionView::Literal {
            output,
            value: literal,
            location: location_of(*node, self.path@),
        }));
        self.emit_defining(x);
        output
    }

    fn lower_print(&mut self, node: &SyntaxNode) -> (r: ValueId)
        requires
            old(self).ok(),
        ensures
            final(self).continues(old(self)),
            final(self).path == old(self).path,
            !final(self).exhausted ==> r.0 < final(self).next_value,
            (final(self).model(), r) == print_model(old(self).model(), *node, old(self).path@),
        decreases node, 6nat,
    {
        let value = match named_child_index(node, 0) {
            Some(i) => self.lower_expression(&node.children[i].node),
            None => self.lower_opaque(node),
        };
        if !self.can_define() {
            return ValueId(0);
        }
        let output = ValueId(self.next_value);
        let mut values: Vec<ValueId> = Vec::new();
        values.push(value);
        let x = Instruction::Output {
            output: Some(output),
            output_kind: OutputKind::Print,
            values,
            location: node_location(node, &self.path),
        };
        assert(ids(values@) =~= seq![value.0]);
        assert(values@ =~= seq![value]);
        self.emit_defining(x);
        output
    }

    fn lower_assignment(&mut self, node: &SyntaxNode) -> (r: ValueId)
        requires
            old(self).ok(),
        ensures
            final(self).continues(old(self)),
            final(self).path == old(self).path,
            !final(self).exhausted ==> r.0 < final(self).next_value,
            (final(self).model(), r) == assignment_model(old(self).model(), *node, old(self).path@),
        decreases node, 6nat,
    {
        let left = field_index(node, "left");
        let right_node = field_index(node, "right");
        let target = match left {
            Some(i) => text_or(node_text(&node.children[i].node), "<unknown>"),
            None => owned("<unknown>"),
        };
        let inferred = match right_node {
            Some(i) => self.infer_object_type(&node.children[i].node),
            None => None,
        };
        let right = match right_node {
            Some(i) => self.lower_expression(&node.children[i].node),
            None => self.lower_opaque(node),
        };
        let ghost s1 = self.model();
        if is_simple_variable_name(target.as_str()) {
            match inferred {
                Some(class_name) => {
                    let ghost c = class_name@;
                    self.variable_types.insert(target.clone(), class_name);
                    assert(self.model().types =~= s1.types.insert(target@, c));
                },
                None => {
                    self.variable_types.remove(target.as_str());
                    assert(self.model().types =~= s1.types.remove(target@));
                },
            }
        }
        if self.exhausted {
            return right;
        }
        let x = Instruction::Assignment {
            target,
            value: right,
            location: node_location(node, &self.path),
        };
        self.emit(x);
        right
    }

    fn lower_concatenation(&mut self, node: &SyntaxNode) -> (r: ValueId)
        requires
            old(self).ok(),
        ensures
            final(self).continues(old(self)),
            final(self).path == old(self).path,
            !final(self).exhausted ==> r.0 < final(self).next_value,
            (final(self).model(), r) == concatenation_model(
                old(self).model(),
                *node,
                old(self).path@,
            ),
        decreases node, 6nat,
    {
        let mut operands: Vec<ValueId> = Vec::new();
        let ghost start = *self;
        match field_index(node, "left") {
            Some(i) => {
                let v = self.lower_expression(&node.children[i].node);
                operands.push(v);
                assert(operands@ =~= seq![].push(v));
            },
            None => {},
        }
        assert((self.model(), operands@) == optional_field_model(
            start.model(),
            *node,
            start.path@,
            "left"@,
            seq![],
        ));
        let ghost middle = *self;
        let ghost left = operands@;
        match field_index(node, "right") {
            Some(i) => {
                let v = self.lower_expression(&node.children[i].node);
                operands.push(v);
            },
            None => {},
        }
        assert((self.model(), operands@) == optional_field_model(
            middle.model(),
            *node,
            start.path@,
            "right"@,
            left,
        ));
        if !self.can_define() {
            return ValueId(0);
        }
        let output = ValueId(self.next_value);
        let x = Instruction::Concatenate {
            output,
            operands,
            location: node_location(node, &self.path),
        };
        self.emit_defining(x);
        output
    }

    fn lower_index_read(&mut self, node: &SyntaxNode) -> (r: ValueId)
        requires
            old(self).ok(),
        ensures
            final(self).continues(old(self)),
            final(self).path == old(self).path,
            !final(self).exhausted ==> r.0 < final(self).next_value,
            (final(self).model(), r) == index_model(old(self).model(), *node, old(self).path@),
        decreases node, 6nat,
    {
        let collection = match named_child_index(node, 0) {
            Some(i) => self.lower_expression(&node.children[i].node),
            None => self.lower_opaque(node),
        };
        let index = match named_child_index(node, 1) {
            Some(i) => Some(self.lower_expression(&node.children[i].node)),
            None => None,
        };
        if !self.can_define() {
            return ValueId(0);
        }
        let output = ValueId(self.next_value);
        let x = Instruction::IndexRead {
            output,
            collection,
            index,
            location: node_location(node, &self.path),
        };
        self.emit_defining(x);
        output
    }

    fn lower_arguments(&mut self, list: &SyntaxNode) -> (r: Vec<ValueId>)
        requires
            old(self).ok(),
        ensures
            final(self).continues(old(self)),
            final(self).path == old(self).path,
            !final(self).exhausted ==> forall|j: int|
                0 <= j < r@.len() ==> (#[trigger] r@[j]).0 < final(self).next_value,
            (final(self).model(), r@) == arguments_model(
                old(self).model(),
                *list,
                old(self).path@,
                list.children@.len() as int,
            ),
        decreases list, 5nat,
    {
        let mut arguments: Vec<ValueId> = Vec::new();
        let mut i: usize = 0;
        while i < list.children.len()
            invariant
                self.ok(),
                self.path == old(self).path,
                old(self).exhausted ==> self.exhausted,
                !self.exhausted ==> old(self).next_value <= self.next_value && open_functions(
                    self.instructions@,
                ) == open_functions(old(self).instructions@),
                !self.exhausted ==> forall|j: int|
                    0 <= j < arguments@.len() ==> (#[trigger] arguments@[j]).0 < self.next_value,
                i <= list.children@.len(),
                (self.model(), arguments@) == arguments_model(
                    old(self).model(),
                    *list,
                    old(self).path@,
                    i as int,
                ),
            decreases list.children@.len() - i,
        {
            match self.lower_argument(&list.children[i].node) {
                Some(v) => arguments.push(v),
                None => {},
            }
            i += 1;
        }
        arguments
    }

    fn lower_argument(&mut self, argument: &SyntaxNode) -> (r: Option<ValueId>)
        requires
            old(self).ok(),
        ensures
            final(self).continues(old(self)),
            final(self).path == old(self).path,
            !final(self).exhausted ==> (r matches Some(v) ==> v.0 < final(self).next_value),
            (final(self).model(), r) == argument_model(
                old(self).model(),
                *argument,
                old(self).path@,
            ),
        decreases argument, 4nat,
    {
        if argument.named && kind_is(argument, "argument") {
            match last_named_index(argument) {
                Some(k) => Some(self.lower_expression(&argument.children[k].node)),
                None => None,
            }
        } else {
            None
        }
    }

    fn lower_call(&mut self, node: &SyntaxNode) -> (r: ValueId)
        requires
            old(self).ok(),
        ensures
            final(self).continues(old(self)),
            final(self).path == old(self).path,
            !final(self).exhausted ==> r.0 < final(self).next_value,
            (final(self).model(), r) == call_model(old(self).model(), *node, old(self).path@),
        decreases node, 6nat,
    {
        let (target, call_kind) = self.call_target(node);
        let mut arguments: Vec<ValueId> = Vec::new();
        match field_index(node, "arguments") {
            Some(a) => {
                arguments = self.lower_arguments(&node.children[a].node);
            },
            None => {},
        }
        if !self.can_define() {
            return ValueId(0);
        }
        let output = ValueId(self.next_value);
        let x = Instruction::Call {
            output,
            target,
            call_kind,
            arguments,
            location: node_location(node, &self.path),
        };
        self.emit_defining(x);
        output
    }

    fn lower_expression(&mut self, node: &SyntaxNode) -> (r: ValueId)
        requires
            old(self).ok(),
        ensures
            final(self).continues(old(self)),
            final(self).path == old(self).path,
            !final(self).exhausted ==> r.0 < final(self).next_value,
            (final(self).model(), r) == expression_model(old(self).model(), *node, old(self).path@),
        decreases node, 7nat,
    {
        if kind_is(node, "variable_name") || kind_is(node, "dynamic_variable_name") {
            if !self.can_define() {
                return ValueId(0);
            }
            let output = ValueId(self.next_value);
            let x = Instruction::VariableRead {
                output,
                name: text_or(node_text(node), "<unknown>"),
                location: node_location(node, &self.path),
            };
            self.emit_defining(x);
            output
        } else if kind_is(node, "string") || kind_is(node, "encapsed_string") || kind_is(
            node,
            "heredoc",
        ) || kind_is(node, "nowdoc") {
            self.lower_literal(node, LiteralValue::String(text_or(node_text(node), "")))
        } else if kind_is(node, "integer") {
            self.lower_literal(node, LiteralValue::Integer(text_or(node_text(node), "")))
        } else if kind_is(node, "float") {
            self.lower_literal(node, LiteralValue::Float(text_or(node_text(node), "")))
        } else if kind_is(node, "boolean") {
            let truth = match node_text(node) {
                Some(t) => equal_ignore_case(t.as_str(), "true"),
                None => false,
            };
            self.lower_literal(node, LiteralValue::Boolean(truth))
        } else if kind_is(node, "null") {
            self.lower_literal(node, LiteralValue::Null)
        } else if kind_is(node, "print_intrinsic") {
            self.lower_print(node)
        } else if kind_is(node, "assignment_expression") || kind_is(
            node,
            "reference_assignment_expression",
        ) {
            self.lower_assignment(node)
        } else if kind_is(node, "binary_expression") && is_concatenation(node) {
            self.lower_concatenation(node)
        } else if kind_is(node, "subscript_expression") {
            self.lower_index_read(node)
        } else if kind_is(node, "function_call_expression") || kind_is(
            node,
            "member_call_expression",
        ) || kind_is(node, "nullsafe_member_call_expression") || kind_is(
            node,
            "scoped_call_expression",
        ) {
            self.lower_call(node)
        } else if kind_is(node, "parenthesized_expression") || kind_is(node, "argument") {
            match named_child_index(node, 0) {
                Some(i) => self.lower_expression(&node.children[i].node),
                None => self.lower_opaque(node),
            }
        } else {
            self.lower_opaque(node)
        }
    }

    /// Lowers one value of an echo statement; a comma-separated sequence gives one value per
    /// element.
    fn lower_echo_value(&mut self, node: &SyntaxNode, values: &mut Vec<ValueId>)
        requires
            old(self).ok(),
            !old(self).exhausted ==> forall|j: int|
                0 <= j < old(values)@.len() ==> (#[trigger] old(values)@[j]).0 < old(self).next_value,
        ensures
            final(self).continues(old(self)),
            final(self).path == old(self).path,
            !final(self).exhausted ==> forall|j: int|
                0 <= j < final(values)@.len() ==> (#[trigger] final(values)@[j]).0
                    < final(self).next_value,
            (final(self).model(), final(values)@) == echo_value_model(
                old(self).model(),
                *node,
                old(self).path@,
                old(values)@,
            ),
        decreases node, 7nat,
    {
        if !kind_is(node, "sequence_expression") {
            let v = self.lower_expression(node);
            values.push(v);
            return;
        }
        let mut i: usize = 0;
        while i < node.children.len()
            invariant
                self.ok(),
                self.path == old(self).path,
                old(self).exhausted ==> self.exhausted,
                !self.exhausted ==> old(self).next_value <= self.next_value && open_functions(
                    self.instructions@,
                ) == open_functions(old(self).instructions@),
                !self.exhausted ==> forall|j: int|
                    0 <= j < values@.len() ==> (#[trigger] values@[j]).0 < self.next_value,
                i <= node.children@.len(),
                (self.model(), values@) == echo_children_model(
                    old(self).model(),
                    *node,
                    old(self).path@,
                    old(values)@,
                    i as int,
                ),
            decreases node.children@.len() - i,
        {
            let child = &node.children[i].node;
            if child.named {
                self.lower_echo_value(child, values);
            }
            i += 1;
        }
    }

    fn lower_echo(&mut self, node: &SyntaxNode)
        requires
            old(self).ok(),
        ensures
            final(self).continues(old(self)),
            final(self).path == old(self).path,
            final(self).model() == echo_model(old(self).model(), *node, old(self).path@),
        decreases node, 8nat,
    {
        let mut values: Vec<ValueId> = Vec::new();
        let mut i: usize = 0;
        while i < node.children.len()
            invariant
                self.ok(),
                self.path == old(self).path,
                old(self).exhausted ==> self.exhausted,
                !self.exhausted ==> old(self).next_value <= self.next_value && open_functions(
                    self.instructions@,
                ) == open_functions(old(self).instructions@),
                !self.exhausted ==> forall|j: int|
                    0 <= j < values@.len() ==> (#[trigger] values@[j]).0 < self.next_value,
                i <= node.children@.len(),
                (self.model(), values@) == echo_children_model(
                    old(self).model(),
                    *node,
                    old(self).path@,
                    seq![],
                    i as int,
                ),
            decreases node.children@.len() - i,
        {
            let child = &node.children[i].node;
            if child.named {
                self.lower_echo_value(child, &mut values);
            }
            i += 1;
        }
        if self.exhausted {
            return;
        }
        let x = Instruction::Output {
            output: None,
            output_kind: OutputKind::Echo,
            values,
            location: node_location(node, &self.path),
        };
        self.emit(x);
    }

    fn lower_function(&mut self, node: &SyntaxNode)
        requires
            old(self).ok(),
        ensures
            final(self).continues(old(self)),
            final(self).path == old(self).path,
            final(self).model() == function_model(old(self).model(), *node, old(self).path@),
        decreases node, 8nat,
    {
        let name = match field_index(node, "name") {
            Some(i) => text_or(node_text(&node.children[i].node), "<anonymous>"),
            None => owned("<anonymous>"),
        };
        let parameters = match field_index(node, "parameters") {
            Some(i) => parameter_names(&node.children[i].node),
            None => Vec::new(),
        };
        assert(parameters.deep_view() =~= match field_child(node.children@, "parameters"@) {
            Some(i) => parameter_list(node.children@[i].node.children@),
            None => seq![],
        });
        if self.exhausted {
            return;
        }
        let ghost st = self.model();
        let location = node_location(node, &self.path);
        let ghost before = self.instructions@;
        let ghost before_view = self.instructions.deep_view();
        let start = Instruction::FunctionStart {
            name: name.clone(),
            parameters,
            location: location.copy(),
        };
        let ghost start_view = start.deep_view();
        self.instructions.push(start);
        proof {
            assert(self.instructions@.drop_last() =~= before);
            assert(defined_count(self.instructions@) == defined_count(before));
            assert(values_well_formed(self.instructions@));
            assert(self.instructions.deep_view() =~= before_view.push(start_view));
        }
        let mut outer: StringHashMap<String> = StringHashMap::new();
        std::mem::swap(&mut outer, &mut self.variable_types);
        assert(self.model().types =~= Map::<Seq<char>, Seq<char>>::empty());
        let ghost s1 = self.model();
        match field_index(node, "body") {
            Some(i) => self.lower_node(&node.children[i].node),
            None => {},
        }
        self.variable_types = outer;
        assert(self.model().types =~= st.types);
        if self.exhausted {
            return;
        }
        let ghost inner = self.instructions@;
        let ghost inner_view = self.instructions.deep_view();
        let end = Instruction::FunctionEnd { name, location };
        let ghost end_view = end.deep_view();
        self.instructions.push(end);
        proof {
            assert(self.instructions@.drop_last() =~= inner);
            assert(defined_count(self.instructions@) == defined_count(inner));
            assert(values_well_formed(self.instructions@));
            assert(open_functions(self.instructions@) == open_functions(before));
            assert(self.instructions.deep_view() =~= inner_view.push(end_view));
        }
    }

    fn lower_node(&mut self, node: &SyntaxNode)
        requires
            old(self).ok(),
        ensures
            final(self).continues(old(self)),
            final(self).path == old(self).path,
            final(self).model() == node_model(old(self).model(), *node, old(self).path@),
        decreases node, 9nat,
    {
        if kind_is(node, "function_definition") {
            self.lower_function(node);
            return;
        }
        if kind_is(node, "echo_statement") {
            self.lower_echo(node);
            return;
        }
        if kind_is(node, "assignment_expression") || kind_is(
            node,
            "reference_assignment_expression",
        ) {
            self.lower_assignment(node);
            return;
        }
        if kind_is(node, "return_statement") {
            let value = match named_child_index(node, 0) {
                Some(i) => Some(self.lower_expression(&node.children[i].node)),
                None => None,
            };
            if self.exhausted {
                return;
            }
            let x = Instruction::Return { value, location: node_location(node, &self.path) };
            self.emit(x);
            return;
        }
        if kind_is(node, "expression_statement") {
            match named_child_index(node, 0) {
                Some(i) => {
                    self.lower_expression(&node.children[i].node);
                },
                None => {},
            }
            return;
        }
        let mut i: usize = 0;
        while i < node.children.len()
            invariant
                self.ok(),
                self.path == old(self).path,
                old(self).exhausted ==> self.exhausted,
                !self.exhausted ==> old(self).next_value <= self.next_value && open_functions(
                    self.instructions@,
                ) == open_functions(old(self).instructions@),
                i <= node.children@.len(),
                self.model() == children_model(old(self).model(), *node, old(self).path@, i as int),
            decreases node.children@.len() - i,
        {
            let child = &node.children[i].node;
            if child.named {
                self.lower_node(child);
            }
            i += 1;
        }
    }

    /// The target and kind of a call; methods on known database objects are qualified with
    /// their class.
    fn call_target(&self, node: &SyntaxNode) -> (r: (String, CallKind))
        ensures
            (r.0@, r.1) == call_target_of(self.model().types, *node),
    {
        if kind_is(node, "function_call_expression") {
            match field_index(node, "function") {
                Some(i) => {
                    let function = &node.children[i].node;
                    let kind = if kind_is(function, "name") || kind_is(function, "qualified_name")
                        || kind_is(function, "relative_name") {
                        CallKind::Function
                    } else {
                        CallKind::Dynamic
                    };
                    (text_or(node_text(function), "<dynamic>"), kind)
                },
                None => (owned("<dynamic>"), CallKind::Dynamic),
            }
        } else if kind_is(node, "member_call_expression") {
            (self.receiver_aware_method_target(node), CallKind::Method)
        } else if kind_is(node, "nullsafe_member_call_expression") {
            (self.receiver_aware_method_target(node), CallKind::NullsafeMethod)
        } else if kind_is(node, "scoped_call_expression") {
            let name = match field_index(node, "name") {
                Some(i) => text_or(node_text(&node.children[i].node), "<dynamic>"),
                None => owned("<dynamic>"),
            };
            (name, CallKind::StaticMethod)
        } else {
            (owned("<dynamic>"), CallKind::Dynamic)
        }
    }

    fn receiver_aware_method_target(&self, node: &SyntaxNode) -> (r: String)
        ensures
            r@ == method_target(self.model().types, *node),
    {
        let method = match field_index(node, "name") {
            Some(i) => text_or(node_text(&node.children[i].node), "<dynamic>"),
            None => owned("<dynamic>"),
        };
        let receiver = match field_index(node, "object") {
            Some(i) => self.infer_object_type(&node.children[i].node),
            None => None,
        };
        match receiver {
            Some(class_name) => join3(class_name.as_str(), "::", method.as_str()),
            None => method,
        }
    }

    /// The database class of an expression: a `new PDO`/`new mysqli`, or a variable assigned
    /// one.
    fn infer_object_type(&self, node: &SyntaxNode) -> (r: Option<String>)
        ensures
            r.deep_view() == inferred_class(self.model().types, *node),
        decreases node,
    {
        if kind_is(node, "object_creation_expression") {
            object_creation_class(node)
        } else if kind_is(node, "variable_name") {
            match node_text(node) {
                Some(name) => match self.variable_types.get(name.as_str()) {
                    Some(t) => Some(t.clone()),
                    None => None,
                },
                None => None,
            }
        } else if kind_is(node, "parenthesized_expression") || kind_is(node, "argument") {
            match named_child_index(node, 0) {
                Some(i) => self.infer_object_type(&node.children[i].node),
                None => None,
            }
        } else {
            None
        }
    }
}

/// Whether a binary expression is a string concatenation.
fn is_concatenation(node: &SyntaxNode) -> (r: bool)
    ensures
        r == concatenates(*node),
{
    match field_index(node, "operator") {
        Some(i) => match node_text(&node.children[i].node) {
            Some(op) => same(op.as_str(), "."),
            None => false,
        },
        None => false,
    }
}

// ---------------------------------------------------------------------------------------------
// Syntax diagnostics
/// A `PHP-PARSE-001` error diagnostic.
pub open spec fn is_parse_error(d: Diagnostic) -> bool {
    d.code@ == "PHP-PARSE-001"@ && d.severity == DiagnosticSeverity::Error
}

/// The `PHP-PARSE-001` diagnostic of an error node or an inserted node.
pub open spec fn node_diagnostic(n: SyntaxNode, path: Seq<char>) -> DiagnosticView {
    DiagnosticView {
        code: "PHP-PARSE-001"@,
        message: if n.missing {
            "Missing PHP syntax element: "@ + n.kind@ + ""@
        } else {
            "Unexpected or incomplete PHP syntax"@
        },
        severity: DiagnosticSeverity::Error,
        location: Some(location_of(n, path)),
    }
}

/// One diagnostic for every error node and inserted node of a tree, in preorder.
pub open spec fn syntax_diagnostics(n: SyntaxNode, path: Seq<char>) -> Seq<DiagnosticView>
    decreases n, 0nat,
{
    (if n.error || n.missing {
        seq![node_diagnostic(n, path)]
    } else {
        seq![]
    }) + forest_diagnostics(n.children@, path)
}

/// The diagnostics of a list of subtrees, in order.
pub open spec fn forest_diagnostics(cs: Seq<SyntaxChild>, path: Seq<char>) -> Seq<DiagnosticView>
    decreases cs, cs.len(),
{
    if cs.len() == 0 {
        seq![]
    } else {
        forest_diagnostics(cs.drop_last(), path) + syntax_diagnostics(cs.last().node, path)
    }
}

/// Appends a `PHP-PARSE-001` error for every error node and inserted node of a tree, in
/// preorder.
fn collect_syntax_diagnostics(node: &SyntaxNode, path: &String, diagnostics: &mut Vec<Diagnostic>)
    ensures
        final(diagnostics).deep_view() == old(diagnostics).deep_view() + syntax_diagnostics(
            *node,
            path@,
        ),
        final(diagnostics)@.len() >= old(diagnostics)@.len(),
        final(diagnostics)@.subrange(0, old(diagnostics)@.len() as int) == old(diagnostics)@,
        (final(diagnostics)@.len() > old(diagnostics)@.len()) == has_syntax_error(*node),
        forall|i: int|
            old(diagnostics)@.len() <= i < final(diagnostics)@.len() ==> is_parse_error(
                #[trigger] final(diagnostics)@[i],
            ),
    decreases node,
{
    let ghost start = diagnostics@;
    let ghost start_view = diagnostics.deep_view();
    if node.error || node.missing {
        let message = if node.missing {
            join3("Missing PHP syntax element: ", node.kind.as_str(), "")
        } else {
            owned("Unexpected or incomplete PHP syntax")
        };
        diagnostics.push(
            Diagnostic {
                code: owned("PHP-PARSE-001"),
                message,
                severity: DiagnosticSeverity::Error,
                location: Some(node_location(node, path)),
            },
        );
    }
    let ghost after_self = diagnostics@;
    let ghost own: Seq<DiagnosticView> = if node.error || node.missing {
        seq![node_diagnostic(*node, path@)]
    } else {
        seq![]
    };
    assert(diagnostics.deep_view() =~= start_view + own);
    let mut i: usize = 0;
    assert(node.children@.subrange(0, 0) =~= Seq::<SyntaxChild>::empty());
    while i < node.children.len()
        invariant
            i <= node.children@.len(),
            start_view == old(diagnostics).deep_view(),
            own == (if node.error || node.missing {
                seq![node_diagnostic(*node, path@)]
            } else {
                Seq::<DiagnosticView>::empty()
            }),
            diagnostics.deep_view() == start_view + own + forest_diagnostics(
                node.children@.subrange(0, i as int),
                path@,
            ),
            diagnostics@.len() >= after_self.len(),
            after_self.len() >= start.len(),
            after_self.subrange(0, start.len() as int) == start,
            diagnostics@.subrange(0, after_self.len() as int) == after_self,
            (diagnostics@.len() > after_self.len()) == forest_has_syntax_error(
                node.children@.subrange(0, i as int),
            ),
            (after_self.len() > start.len()) == (node.error || node.missing),
            forall|k: int| start.len() <= k < diagnostics@.len() ==> is_parse_error(#[trigger] diagnostics@[k]),
        decreases node.children@.len() - i,
    {
        let ghost before = diagnostics@;
        let ghost before_view = diagnostics.deep_view();
        collect_syntax_diagnostics(&node.children[i].node, path, diagnostics);
        proof {
            let s = node.children@.subrange(0, i + 1);
            assert(s.drop_last() =~= node.children@.subrange(0, i as int));
            assert(s.last() == node.children@[i as int]);
            assert(diagnostics.deep_view() =~= start_view + own + forest_diagnostics(s, path@));
            assert forall|k: int| start.len() <= k < diagnostics@.len() implies is_parse_error(
                #[trigger] diagnostics@[k],
            ) by {
                if k < before.len() {
                    assert(diagnostics@.subrange(0, before.len() as int)[k] == before[k]);
                }
            }
            assert(diagnostics@.subrange(0, after_self.len() as int) =~= after_self) by {
                assert(diagnostics@.subrange(0, before.len() as int) == before);
                assert forall|k: int| 0 <= k < after_self.len() implies diagnostics@[k]
                    == after_self[k] by {
                    assert(diagnostics@.subrange(0, before.len() as int)[k] == before[k]);
                    assert(before.subrange(0, after_self.len() as int)[k] == after_self[k]);
                }
            }
        }
        i += 1;
    }
    proof {
        assert(node.children@.subrange(0, i as int) =~= node.children@);
        assert(diagnostics.deep_view() =~= start_view + syntax_diagnostics(*node, path@));
        assert(diagnostics@.subrange(0, start.len() as int) =~= start) by {
            assert forall|k: int| 0 <= k < start.len() implies diagnostics@[k] == start[k] by {
                assert(diagnostics@.subrange(0, after_self.len() as int)[k] == after_self[k]);
                assert(after_self.subrange(0, start.len() as int)[k] == start[k]);
            }
        }
    }
}

// ---------------------------------------------------------------------------------------------
// The frontend
/// One source file of a project, with its path relative to the project root.
#[derive(Debug, Clone)]
pub struct SourceFile {
    pub path: String,
    pub content: String,
}

/// What a frontend learned about a project.
#[derive(Debug, Clone)]
pub struct ProjectDetection {
    pub language: String,
    pub frameworks: Vec<String>,
    pub confidence: u8,
}

/// The lowered module of a file and the diagnostics of its syntax.
#[derive(Debug)]
pub struct FrontendOutput {
    pub module: ModuleIr,
    pub diagnostics: Vec<Diagnostic>,
}

/// Why a file could not be lowered.
#[derive(Debug, Clone, Copy, PartialEq, Eq, Structural)]
pub enum FrontendError {
    GrammarUnavailable,
    TooManyValues,
}

/// The message of a frontend error.
pub open spec fn frontend_error_text(e: FrontendError) -> Seq<char> {
    match e {
        FrontendError::GrammarUnavailable => "failed to initialize PHP grammar"@,
        FrontendError::TooManyValues => "the file defines more values than can be numbered"@,
    }
}

impl FrontendError {
    /// The message of this error.
    pub fn message(&self) -> (r: String)
        ensures
            r@ == frontend_error_text(*self),
    {
        match self {
            FrontendError::GrammarUnavailable => owned("failed to initialize PHP grammar"),
            FrontendError::TooManyValues => owned("the file defines more values than can be numbered"),
        }
    }
}

/// The lowered module of a syntax tree is well formed: values are defined in order before
/// they are read, and every function that is opened is closed.
pub open spec fn lowered_well_formed(module: ModuleIr, path: Seq<char>) -> bool {
    &&& module.language@ == "php"@
    &&& module.path@ == path
    &&& values_well_formed(module.instructions@)
    &&& open_functions(module.instructions@) == Some(Seq::<Seq<char>>::empty())
}

/// `module` is the lowering of the syntax tree `root` of a file at `path`.
pub open spec fn lowering_of(root: SyntaxNode, path: Seq<char>, module: ModuleIr) -> bool {
    &&& !node_model(lowering_start(), root, path).exhausted
    &&& module.instructions.deep_view() == node_model(lowering_start(), root, path).instructions
    &&& lowered_well_formed(module, path)
}

/// `out` is the lowered module of the syntax tree `root` of a file at `path`, with the
/// tree's syntax diagnostics.
pub open spec fn frontend_output_of(root: SyntaxNode, path: Seq<char>, out: FrontendOutput) -> bool {
    &&& lowering_of(root, path, out.module)
    &&& out.diagnostics.deep_view() == syntax_diagnostics(root, path)
}

/// The lowering of the syntax tree `root` of a file at `path` runs out of value identities.
pub open spec fn lowering_exhausted(root: SyntaxNode, path: Seq<char>) -> bool {
    node_model(lowering_start(), root, path).exhausted
}

/// The lowered module of a PHP syntax tree and its syntax diagnostics, or an error if the
/// value identities ran out.
pub fn lower_syntax_tree(root: &SyntaxNode, path: &String) -> (r: Result<FrontendOutput, FrontendError>)
    ensures
        match r {
            Ok(out) => {
                &&& !node_model(lowering_start(), *root, path@).exhausted
                &&& out.module.instructions.deep_view() == node_model(
                    lowering_start(),
                    *root,
                    path@,
                ).instructions
                &&& lowered_well_formed(out.module, path@)
                &&& out.diagnostics.deep_view() == syntax_diagnostics(*root, path@)
                &&& (out.diagnostics@.len() > 0) == has_syntax_error(*root)
                &&& forall|i: int|
                    0 <= i < out.diagnostics@.len() ==> (#[trigger] out.diagnostics@[i]).code@
                        == "PHP-PARSE-001"@
            },
            Err(e) => e == FrontendError::TooManyValues && node_model(
                lowering_start(),
                *root,
                path@,
            ).exhausted,
        },
{
    let mut diagnostics: Vec<Diagnostic> = Vec::new();
    collect_syntax_diagnostics(root, path, &mut diagnostics);
    let mut lowerer = PhpLowerer {
        path: path.clone(),
        next_value: 0,
        exhausted: false,
        instructions: Vec::new(),
        variable_types: StringHashMap::new(),
    };
    assert(open_functions(lowerer.instructions@) == Some(Seq::<Seq<char>>::empty()));
    assert(lowerer.model() =~= lowering_start()) by {
        assert(lowerer.model().types =~= Map::<Seq<char>, Seq<char>>::empty());
        assert(lowerer.model().instructions =~= Seq::<InstructionView>::empty());
    }
    lowerer.lower_node(root);
    if lowerer.exhausted {
        return Err(FrontendError::TooManyValues);
    }
    Ok(
        FrontendOutput {
            module: ModuleIr {
                language: owned("php"),
                path: path.clone(),
                instructions: lowerer.instructions,
            },
            diagnostics,
        },
    )
}

/// The frontend for PHP source files.
#[derive(Debug, Clone, Copy)]
pub struct PhpFrontend;

impl PhpFrontend {
    /// The PHP frontend.
    pub fn new() -> (r: Self)
        ensures
            r == PhpFrontend,
    {
        PhpFrontend
    }
}

/// A path whose file name has the extension `php`: it ends in `.php` after at least one
/// character of the same file name.
pub open spec fn has_php_extension(path: Seq<char>) -> bool {
    &&& path.len() > 4
    &&& path.subrange(path.len() - 4, path.len() as int) == ".php"@
    &&& path[path.len() - 5] != '/'
}

/// A language frontend: which files it reads and how it lowers them.
pub trait LanguageFrontend {
    /// The identifier of the language the frontend reads.
    spec fn language(&self) -> Seq<char>;

    /// The language identifier.
    fn id(&self) -> (r: &'static str)
        ensures
            r@ == self.language(),
    ;

    /// Whether the frontend reads a file.
    fn supports_file(&self, path: &str) -> (r: bool)
        ensures
            r == has_php_extension(path@),
    ;

    /// The lowered module and syntax diagnostics of a file.
    fn parse_and_lower(&self, file: &SourceFile) -> (r: Result<FrontendOutput, FrontendError>)
        ensures
            r matches Ok(out) ==> {
                &&& lowered_well_formed(out.module, file.path@)
                &&& exists|root: SyntaxNode|
                    #[trigger] php_tree_of(root, file.content@) && frontend_output_of(
                        root,
                        file.path@,
                        out,
                    )
                &&& forall|i: int|
                    0 <= i < out.diagnostics@.len() ==> (#[trigger] out.diagnostics@[i]).code@
                        == "PHP-PARSE-001"@
            },
            r matches Err(e) ==> e == FrontendError::GrammarUnavailable || (e
                == FrontendError::TooManyValues && exists|root: SyntaxNode|
                #[trigger] php_tree_of(root, file.content@) && lowering_exhausted(
                    root,
                    file.path@,
                )),
    ;
}

impl LanguageFrontend for PhpFrontend {
    open spec fn language(&self) -> Seq<char> {
        "php"@
    }

    fn id(&self) -> (r: &'static str) {
        "php"
    }

    fn supports_file(&self, path: &str) -> (r: bool) {
        let cs = chars_of(path);
        let n = cs.len();
        if n <= 4 {
            return false;
        }
        let ghost tail = cs@.subrange(n - 4, n as int);
        proof {
            reveal_strlit(".php");
        }
        if !(cs[n - 4] == '.' && cs[n - 3] == 'p' && cs[n - 2] == 'h' && cs[n - 1] == 'p') {
            assert(tail[0] != '.' || tail[1] != 'p' || tail[2] != 'h' || tail[3] != 'p');
            return false;
        }
        assert(tail =~= ".php"@);
        cs[n - 5] != '/'
    }

    fn parse_and_lower(&self, file: &SourceFile) -> (r: Result<FrontendOutput, FrontendError>)
        ensures
            exists|root: SyntaxNode|
                #[trigger] php_tree_of(root, file.content@) && match r {
                    Ok(out) => frontend_output_of(root, file.path@, out),
                    Err(e) => e == FrontendError::TooManyValues && lowering_exhausted(
                        root,
                        file.path@,
                    ),
                },
    {
        match parse_php(file.content.as_str()) {
            Some(root) => {
                let r = lower_syntax_tree(&root, &file.path);
                assert(r matches Ok(out) ==> frontend_output_of(root, file.path@, out));
                assert(r is Err ==> lowering_exhausted(root, file.path@));
                assert(php_tree_of(root, file.content@));
                r
            },
            None => Err(FrontendError::GrammarUnavailable),
        }
    }
}

// ---------------------------------------------------------------------------------------------
// Framework detection
/// Of a JSON document, the names of the members of the JSON object stored under `member`, or
/// `None` inside if there is no such member or it is not an object; `None` if the text is not
/// JSON.
pub uninterp spec fn json_object_member_names(text: Seq<char>, member: Seq<char>) -> Option<
    Option<Seq<Seq<char>>>,
>;

/// `serde_json::from_str` into a `serde_json::Value`, then `Value::get` of `member`,
/// `Value::as_object` and the object's keys: the result is claimed to be
/// [`json_object_member_names`] of the arguments.
#[verifier::external_body]
fn member_names(text: &str, member: &str) -> (r: Option<Option<Vec<String>>>)
    ensures
        r.deep_view() == json_object_member_names(text@, member@),
{
    let value: serde_json::Value = serde_json::from_str(text).ok()?;
    Some(value.get(member).and_then(serde_json::Value::as_object).map(|o| o.keys().cloned().collect()))
}

/// The packages of a Composer section: its member names, none if it is missing or no object.
pub open spec fn section_packages(names: Option<Seq<Seq<char>>>) -> Seq<Seq<char>> {
    match names {
        Some(v) => v,
        None => seq![],
    }
}

fn section_packages_exec(names: Option<Vec<String>>) -> (r: Vec<String>)
    ensures
        r.deep_view() == section_packages(names.deep_view()),
{
    match names {
        Some(v) => v,
        None => Vec::new(),
    }
}

/// The frameworks that Composer packages and WordPress files reveal, in increasing order.
pub open spec fn framework_list(packages: Seq<Seq<char>>, wordpress: bool) -> Seq<Seq<char>> {
    (if packages.contains("laravel/framework"@) {
        seq!["laravel"@]
    } else {
        seq![]
    }) + (if packages.contains("symfony/framework-bundle"@) {
        seq!["symfony"@]
    } else {
        seq![]
    }) + (if wordpress {
        seq!["wordpress"@]
    } else {
        seq![]
    })
}

/// Why a project could not be inspected.
#[derive(Debug, Clone, Copy, PartialEq, Eq, Structural)]
pub enum DetectionError {
    InvalidComposerManifest,
}

fn contains_text(values: &Vec<String>, text: &str) -> (r: bool)
    ensures
        r == values.deep_view().contains(text@),
{
    let mut i: usize = 0;
    while i < values.len()
        invariant
            i <= values.len(),
            forall|j: int| 0 <= j < i ==> values.deep_view()[j] != text@,
        decreases values.len() - i,
    {
        assert(values.deep_view()[i as int] == values@[i as int]@);
        if same(values[i].as_str(), text) {
            return true;
        }
        i += 1;
    }
    false
}

impl PhpFrontend {
    /// The language and frameworks of a project from its Composer manifest, if it has one, and
    /// whether WordPress files (`wp-config.php`, `wp-includes/version.php` or `wp-content/`)
    /// exist: Laravel and Symfony by their framework packages among the required and
    /// development packages, WordPress by its files.
    pub fn detect_project(&self, composer_manifest: Option<&str>, wordpress_files: bool) -> (r:
        Result<ProjectDetection, DetectionError>)
        ensures
            match composer_manifest {
                None => r matches Ok(d) && d.language@ == "php"@ && d.confidence == 80
                    && d.frameworks.deep_view() == framework_list(seq![], wordpress_files),
                Some(text) => match (
                    json_object_member_names(text@, "require"@),
                    json_object_member_names(text@, "require-dev"@),
                ) {
                    (Some(a), Some(b)) => r matches Ok(d) && d.language@ == "php"@ && d.confidence
                        == 100 && d.frameworks.deep_view() == framework_list(
                        section_packages(a) + section_packages(b),
                        wordpress_files,
                    ),
                    _ => r == Err::<ProjectDetection, DetectionError>(
                        DetectionError::InvalidComposerManifest,
                    ),
                },
            },
    {
        let mut packages: Vec<String> = Vec::new();
        let confidence: u8 = match composer_manifest {
            Some(text) => {
                let require = member_names(text, "require");
                let dev = member_names(text, "require-dev");
                match (require, dev) {
                    (Some(a0), Some(b0)) => {
                        let mut a = section_packages_exec(a0);
                        let mut b = section_packages_exec(b0);
                        let ghost av = a.deep_view();
                        let ghost bv = b.deep_view();
                        packages.append(&mut a);
                        packages.append(&mut b);
                        assert(packages.deep_view() =~= av + bv);
                    },
                    _ => return Err(DetectionError::InvalidComposerManifest),
                }
                100
            },
            None => {
                assert(packages.deep_view() =~= Seq::<Seq<char>>::empty());
                80
            },
        };
        let mut frameworks: Vec<String> = Vec::new();
        let ghost ps = packages.deep_view();
        if contains_text(&packages, "laravel/framework") {
            frameworks.push(owned("laravel"));
        }
        if contains_text(&packages, "symfony/framework-bundle") {
            frameworks.push(owned("symfony"));
        }
        if wordpress_files {
            frameworks.push(owned("wordpress"));
        }
        assert(frameworks.deep_view() =~= framework_list(ps, wordpress_files));
        Ok(ProjectDetection { language: owned("php"), frameworks, confidence })
    }
}

} // verus!
