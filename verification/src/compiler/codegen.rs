use crate::ir::node::{refs_model, NodeModel, NodeRef, NodeType};
use crate::ir::options::CodegenOptions;
use crate::ir::store::IR;
use crate::ir::traverse::preorder;
use crate::text::{replace, replaced, str_eq};
use vstd::prelude::*;
use vstd::string::StringExecFns;

verus! {

/// Whether `g` says what the writer of numbers `number_text` returns for
/// every bit pattern.
pub open spec fn writes<F: Fn(u64) -> String>(number_text: &F, g: spec_fn(u64) -> Seq<char>) -> bool {
    forall|bits: u64, text: String| #[trigger]
        number_text.ensures((bits,), text) ==> text@ == g(bits)
}

/// The keyword of a declaration: its `kind`, or `var` where it has none.
pub open spec fn kind_text(n: NodeModel) -> Seq<char> {
    if n.values.contains_key("kind"@) && n.values["kind"@] is Text {
        n.values["kind"@]->Text_0
    } else {
        "var"@
    }
}

/// The name of the declared identifier with ` = ` after it, where the
/// node has a name.
pub open spec fn name_text(n: NodeModel) -> Seq<char> {
    if n.values.contains_key("name"@) && n.values["name"@] is Text {
        n.values["name"@]->Text_0 + " = "@
    } else {
        Seq::empty()
    }
}

/// A literal as it is written: a number by the writer of numbers, a
/// string between double quotes; nothing for any other node.
pub open spec fn value_text(n: NodeModel, g: spec_fn(u64) -> Seq<char>) -> Seq<char> {
    if n.node_type == NodeType::NumericLiteral {
        if n.values.contains_key("value"@) && n.values["value"@] is Number {
            g(n.values["value"@]->Number_0)
        } else {
            Seq::empty()
        }
    } else if n.node_type == NodeType::StringLiteral {
        if n.values.contains_key("value"@) && n.values["value"@] is Text {
            "\""@ + n.values["value"@]->Text_0 + "\""@
        } else {
            Seq::empty()
        }
    } else {
        Seq::empty()
    }
}

/// What one node adds to the output: a variable declaration adds its
/// keyword and a blank and then, where it has two children or more, the
/// name of the first, the value of the second and a semicolon; any other
/// node adds nothing.
pub open spec fn node_text(n: NodeModel, g: spec_fn(u64) -> Seq<char>) -> Seq<char> {
    if n.node_type == NodeType::VariableDeclaration {
        kind_text(n) + " "@ + if n.children.len() >= 2 {
            name_text(n.children[0]) + value_text(n.children[1], g) + ";"@
        } else {
            Seq::empty()
        }
    } else {
        Seq::empty()
    }
}

/// What the first `upto` nodes of a walk add to the output.
pub open spec fn walk_text(order: Seq<NodeModel>, upto: int, g: spec_fn(u64) -> Seq<char>) -> Seq<
    char,
>
    decreases upto,
{
    if upto <= 0 {
        Seq::empty()
    } else {
        walk_text(order, upto - 1, g) + node_text(order[upto - 1], g)
    }
}

/// Code as it is after the change for a target: for `es5`, `var` in the
/// place of `const` and `let`; for `es2015`, behind the strict-mode
/// directive; for any other target, as it was.
pub open spec fn target_text(target: Seq<char>, code: Seq<char>) -> Seq<char> {
    if target == "es5"@ {
        replaced(replaced(code, "const "@, "var "@), "let "@, "var "@)
    } else if target == "es2015"@ {
        "\"use strict\";\n"@ + code
    } else {
        code
    }
}

/// Code without blanks, line feeds and tabulators.
pub open spec fn minified(code: Seq<char>) -> Seq<char> {
    replaced(replaced(replaced(code, " "@, Seq::empty()), "\n"@, Seq::empty()), "\t"@, Seq::empty())
}

/// The output for raw code under given options.
pub open spec fn emitted(minify: bool, target: Seq<char>, raw: Seq<char>) -> Seq<char> {
    if minify {
        minified(target_text(target, raw))
    } else {
        target_text(target, raw)
    }
}

/// Whether no node of a walk is a declaration of a variable.
pub open spec fn declares_nothing(order: Seq<NodeModel>) -> bool {
    forall|i: int|
        0 <= i < order.len() ==> (#[trigger] order[i]).node_type != NodeType::VariableDeclaration
}

/// The writer of target code for a unit.
pub struct CodeGenerator {
    pub options: CodegenOptions,
}

impl CodeGenerator {
    pub fn new(options: CodegenOptions) -> (g: Self)
        ensures
            g.options == options,
    {
        CodeGenerator { options }
    }

    fn write_value<F: Fn(u64) -> String>(value: &NodeRef, number_text: &F) -> (text: String)
        requires
            forall|bits: u64| number_text.requires((bits,)),
        ensures
            forall|g: spec_fn(u64) -> Seq<char>| #[trigger]
                writes(number_text, g) ==> text@ == value_text(value@, g),
    {
        match value.0.node_type {
            NodeType::NumericLiteral => match value.0.get_number_value("value") {
                Some(bits) => number_text(bits),
                None => String::new(),
            },
            NodeType::StringLiteral => match value.0.get_string_value("value") {
                Some(s) => "\"".to_owned().concat(s).concat("\""),
                None => String::new(),
            },
            _ => String::new(),
        }
    }

    fn write_node<F: Fn(u64) -> String>(node: &NodeRef, number_text: &F) -> (text: String)
        requires
            forall|bits: u64| number_text.requires((bits,)),
        ensures
            forall|g: spec_fn(u64) -> Seq<char>| #[trigger]
                writes(number_text, g) ==> text@ == node_text(node@, g),
            node@.node_type != NodeType::VariableDeclaration ==> text@ == Seq::<char>::empty(),
    {
        if node.0.node_type != NodeType::VariableDeclaration {
            return String::new();
        }
        let kind = match node.0.get_string_value("kind") {
            Some(k) => k,
            None => "var",
        };
        let mut text = kind.to_owned().concat(" ");
        if node.0.children.len() >= 2 {
            assert(node@.children[0] == node.0.children@[0]@);
            assert(node@.children[1] == node.0.children@[1]@);
            if let Some(name) = node.0.children[0].0.get_string_value("name") {
                text = text.concat(name).concat(" = ");
            }
            let value = Self::write_value(&node.0.children[1], number_text);
            text = text.concat(value.as_str()).concat(";");
            assert forall|g: spec_fn(u64) -> Seq<char>| #[trigger]
                writes(number_text, g) implies text@ == node_text(node@, g) by {
                assert(text@ =~= node_text(node@, g));
            }
        } else {
            assert forall|g: spec_fn(u64) -> Seq<char>| #[trigger]
                writes(number_text, g) implies text@ == node_text(node@, g) by {
                assert(text@ =~= node_text(node@, g));
            }
        }
        text
    }

    /// Writes the code of a unit: its declarations of variables, in the
    /// order of the walk, changed for the target and, where asked for,
    /// minified. Numbers are written by `number_text`; a unit that
    /// declares no variable is written without it.
    pub fn generate<F: Fn(u64) -> String>(&self, ir: &IR, number_text: &F) -> (code: String)
        requires
            ir.wf(),
            forall|bits: u64| number_text.requires((bits,)),
        ensures
            forall|g: spec_fn(u64) -> Seq<char>| #[trigger]
                writes(number_text, g) ==> code@ == emitted(
                    self.options.minify,
                    self.options.target@,
                    walk_text(preorder(ir@.root()), preorder(ir@.root()).len() as int, g),
                ),
            declares_nothing(preorder(ir@.root())) ==> code@ == emitted(
                self.options.minify,
                self.options.target@,
                Seq::empty(),
            ),
    {
        let order = ir.visit();
        let ghost models = refs_model(order@);
        let mut output = String::new();
        let mut i: usize = 0;
        assert(output@ =~= Seq::<char>::empty());
        while i < order.len()
            invariant
                i <= order.len(),
                models == refs_model(order@),
                forall|bits: u64| number_text.requires((bits,)),
                forall|g: spec_fn(u64) -> Seq<char>| #[trigger]
                    writes(number_text, g) ==> output@ == walk_text(models, i as int, g),
                declares_nothing(models) ==> output@ == Seq::<char>::empty(),
            decreases order.len() - i,
        {
            assert(models[i as int] == order@[i as int]@);
            let piece = Self::write_node(&order[i], number_text);
            output.append(piece.as_str());
            proof {
                if declares_nothing(models) {
                    assert(models[i as int].node_type != NodeType::VariableDeclaration);
                    assert(output@ =~= Seq::<char>::empty());
                }
            }
            i = i + 1;
        }
        let transformed = self.apply_target_transform(output.as_str());
        if self.options.minify {
            self.minify(transformed.as_str())
        } else {
            transformed
        }
    }

    /// Changes code for the target of the options.
    pub fn apply_target_transform(&self, code: &str) -> (r: String)
        ensures
            r@ == target_text(self.options.target@, code@),
    {
        if str_eq(self.options.target.as_str(), "es5") {
            proof {
                reveal_strlit("const ");
                reveal_strlit("let ");
            }
            let first = replace(code, "const ", "var ");
            replace(first.as_str(), "let ", "var ")
        } else if str_eq(self.options.target.as_str(), "es2015") {
            "\"use strict\";\n".to_owned().concat(code)
        } else {
            code.to_owned()
        }
    }

    /// Takes the blanks, line feeds and tabulators out of code.
    pub fn minify(&self, code: &str) -> (r: String)
        ensures
            r@ == minified(code@),
    {
        proof {
            reveal_strlit(" ");
            reveal_strlit("\n");
            reveal_strlit("\t");
            reveal_strlit("");
        }
        assert(""@ =~= Seq::<char>::empty());
        let a = replace(code, " ", "");
        let b = replace(a.as_str(), "\n", "");
        replace(b.as_str(), "\t", "")
    }
}

} // verus!
