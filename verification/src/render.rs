//! The page renderer: turns one class (a documentation page) into Markdown
//! text. Every render function's output is pinned, character for character,
//! by a spec function over the model.

use vstd::prelude::*;
use crate::model::{Class, DocError, Field, Method, Overload, Parameter};
use crate::resolver::{spec_type_to_slug, type_to_slug};
use crate::table::{spec_render_table, Table};
use crate::text::{dec_string, expand_newlines, spec_dec, spec_expand_newlines, str_eq};

verus! {

/// A section header carrying its own anchor: the inner text in code markup,
/// then the anchor slug.
pub open spec fn spec_anchor_header(inner: Seq<char>, slug: Seq<char>) -> Seq<char> {
    "### <code>"@ + inner + "</code> \\{#"@ + slug + "}"@
}

/// A type name rendered as a link to its resolved destination.
pub open spec fn spec_type_link(t: Seq<char>) -> Seq<char> {
    "<code>["@ + t + "]("@ + spec_type_to_slug(t) + ")</code>"@
}

/// Builds the linked form of a type name.
pub fn type_link(t: &str) -> (r: String)
    ensures
        r@ == spec_type_link(t@),
{
    let mut r: String = "<code>[".to_owned();
    r.append(t);
    r.append("](");
    r.append(type_to_slug(t));
    r.append(")</code>");
    r
}

/// The rendered block for one field: anchored header, expanded description,
/// closing horizontal rule.
pub open spec fn spec_render_field(f: Field) -> Seq<char> {
    spec_anchor_header(f.name@, f.name@) + "\n\n"@ + spec_expand_newlines(f.description@)
        + "\n\n"@ + "---"@
}

impl Field {
    /// Renders this field's documentation block.
    pub fn render(&self) -> (r: String)
        ensures
            r@ == spec_render_field(*self),
    {
        let mut r: String = "### <code>".to_owned();
        r.append(self.name.as_str());
        r.append("</code> \\{#");
        r.append(self.name.as_str());
        r.append("}");
        r.append("\n\n");
        let d = expand_newlines(self.description.as_str());
        r.append(d.as_str());
        r.append("\n\n");
        r.append("---");
        proof {
            assert(r@ =~= spec_render_field(*self));
        }
        r
    }
}

/// The first `n` parameter names joined with a comma and a space.
pub open spec fn spec_params_sig(ps: Seq<Parameter>, n: int) -> Seq<char>
    decreases n,
{
    if n <= 0 {
        Seq::empty()
    } else if n == 1 {
        ps[0].name@
    } else {
        spec_params_sig(ps, n - 1) + ", "@ + ps[n - 1].name@
    }
}

/// The call-signature text of one overload: its parameter names, in
/// call-signature order, joined with a comma and a space.
pub open spec fn spec_signature(o: Overload) -> Seq<char> {
    spec_params_sig(o.0@, o.0@.len() as int)
}

/// One parameter's table row: name, linked type, and the two placeholders
/// (the export carries no per-parameter description or default).
pub open spec fn spec_param_row(p: Parameter) -> Seq<Seq<char>> {
    seq![p.name@, spec_type_link(p.type_tag@), "-"@, "-"@]
}

/// The first `n` parameter rows of an overload's table.
pub open spec fn spec_param_rows(ps: Seq<Parameter>, n: int) -> Seq<Seq<Seq<char>>>
    decreases n,
{
    if n <= 0 {
        Seq::empty()
    } else {
        spec_param_rows(ps, n - 1).push(spec_param_row(ps[n - 1]))
    }
}

impl Overload {
    /// Builds the call-signature text of this overload.
    pub fn signature(&self) -> (r: String)
        ensures
            r@ == spec_signature(*self),
    {
        let mut r = String::new();
        let n = self.0.len();
        let mut i: usize = 0;
        while i < n
            invariant
                i <= n,
                n == self.0@.len(),
                r@ == spec_params_sig(self.0@, i as int),
            decreases n - i,
        {
            if i > 0 {
                r.append(", ");
            }
            r.append(self.0[i].name.as_str());
            i = i + 1;
        }
        r
    }

    /// Builds the Parameters-table rows for this overload, one row per
    /// parameter, in call-signature order.
    pub fn to_rows(&self) -> (r: Vec<Vec<String>>)
        ensures
            r.deep_view() == spec_param_rows(self.0@, self.0@.len() as int),
            forall|j: int| 0 <= j < r@.len() ==> (#[trigger] r@[j])@.len() == 4,
    {
        let n = self.0.len();
        let mut r: Vec<Vec<String>> = Vec::new();
        let mut i: usize = 0;
        while i < n
            invariant
                i <= n,
                n == self.0@.len(),
                r.deep_view() == spec_param_rows(self.0@, i as int),
                r@.len() == i,
                forall|j: int| 0 <= j < r@.len() ==> (#[trigger] r@[j])@.len() == 4,
            decreases n - i,
        {
            let p = &self.0[i];
            let mut row: Vec<String> = Vec::new();
            row.push(p.name.clone());
            row.push(type_link(p.type_tag.as_str()));
            row.push("-".to_owned());
            row.push("-".to_owned());
            proof {
                assert(row.deep_view() =~= spec_param_row(self.0@[i as int]));
            }
            r.push(row);
            proof {
                assert(r.deep_view() =~= spec_param_rows(self.0@, i + 1 as int));
            }
            i = i + 1;
        }
        r
    }
}

/// The Parameters-table column headers.
pub open spec fn spec_param_headers() -> Seq<Seq<char>> {
    seq!["Name"@, "Type"@, "Description"@, "Default"@]
}

/// The Returns-table column headers.
pub open spec fn spec_return_headers() -> Seq<Seq<char>> {
    seq!["Type"@, "Description"@]
}

fn param_headers() -> (r: Vec<String>)
    ensures
        r.deep_view() == spec_param_headers(),
{
    let mut r: Vec<String> = Vec::new();
    r.push("Name".to_owned());
    r.push("Type".to_owned());
    r.push("Description".to_owned());
    r.push("Default".to_owned());
    proof {
        assert(r.deep_view() =~= spec_param_headers());
    }
    r
}

fn return_headers() -> (r: Vec<String>)
    ensures
        r.deep_view() == spec_return_headers(),
{
    let mut r: Vec<String> = Vec::new();
    r.push("Type".to_owned());
    r.push("Description".to_owned());
    proof {
        assert(r.deep_view() =~= spec_return_headers());
    }
    r
}

/// A method wraps its overloads in a tab group exactly when it has more
/// than one overload.
pub open spec fn spec_method_has_tabs(m: Method) -> bool {
    m.parameters@.len() > 1
}

/// The rendered block for overload `i` of a method: the optional tab-item
/// wrapper, the call-signature code block, the Parameters table when the
/// overload has parameters, the Returns table for `returns[i]`, and the
/// placeholder example block.
pub open spec fn spec_overload_block(m: Method, i: int) -> Seq<char> {
    let tabs = spec_method_has_tabs(m);
    (if tabs {
        "    "@ + "<TabItem value=\"overload-"@ + spec_dec((i + 1) as nat)
            + "\" label=\"Overload "@ + spec_dec((i + 1) as nat) + "\">"@ + "\n\n"@
    } else {
        Seq::empty()
    }) + "```lua\n"@ + m.name@ + "("@ + spec_signature(m.parameters@[i]) + ")"@ + "\n```"@ + (
    if m.parameters@[i].0@.len() > 0 {
        "\n\n"@ + spec_render_table(
            "Parameters:"@,
            spec_param_headers(),
            spec_param_rows(m.parameters@[i].0@, m.parameters@[i].0@.len() as int),
        )
    } else {
        Seq::empty()
    }) + "\n\n"@ + spec_render_table(
        "Returns:"@,
        spec_return_headers(),
        seq![seq![spec_type_link(m.returns@[i]@), "-"@]],
    ) + "\n\n"@ + "**Example:**"@ + "\n\n"@ + "```lua\n--todo\n```"@ + "\n\n"@ + (if tabs {
        "    "@ + "</TabItem>"@ + "\n"@
    } else {
        Seq::empty()
    })
}

/// The first `n` overload blocks of a method, in declaration order.
pub open spec fn spec_overload_blocks(m: Method, n: int) -> Seq<char>
    decreases n,
{
    if n <= 0 {
        Seq::empty()
    } else {
        spec_overload_blocks(m, n - 1) + spec_overload_block(m, n - 1)
    }
}

/// The rendered block for one method: anchored header, expanded description,
/// the optional tab-group wrapper around the overload blocks, and the
/// closing horizontal rule.
pub open spec fn spec_render_method(m: Method) -> Seq<char> {
    spec_anchor_header(m.name@ + "()"@, m.name@) + "\n\n"@ + spec_expand_newlines(m.description@)
        + "\n\n"@ + (if spec_method_has_tabs(m) {
        "<Tabs>"@ + "\n"@
    } else {
        Seq::empty()
    }) + spec_overload_blocks(m, m.parameters@.len() as int) + (if spec_method_has_tabs(m) {
        "</Tabs>"@ + "\n\n"@
    } else {
        Seq::empty()
    }) + "---"@
}

impl Method {
    /// Renders the block for overload `i`: optional tab item, signature code
    /// block, Parameters table when the overload has parameters, the Returns
    /// table paired with `returns[i]`, and the placeholder example.
    #[verifier::rlimit(50)]
    fn overload_block(&self, i: usize) -> (r: String)
        requires
            i < self.parameters@.len(),
            i < self.returns@.len(),
        ensures
            r@ == spec_overload_block(*self, i as int),
    {
        let tabs = self.parameters.len() > 1;
        let mut r = String::new();
        let ghost po = self.parameters@[i as int];
        let ghost tab_open: Seq<char> = if tabs {
            "    "@ + "<TabItem value=\"overload-"@ + spec_dec((i + 1) as nat)
                + "\" label=\"Overload "@ + spec_dec((i + 1) as nat) + "\">"@ + "\n\n"@
        } else {
            Seq::empty()
        };
        let ghost params_part: Seq<char> = if po.0@.len() > 0 {
            "\n\n"@ + spec_render_table(
                "Parameters:"@,
                spec_param_headers(),
                spec_param_rows(po.0@, po.0@.len() as int),
            )
        } else {
            Seq::empty()
        };
        let ghost returns_part: Seq<char> = "\n\n"@ + spec_render_table(
            "Returns:"@,
            spec_return_headers(),
            seq![seq![spec_type_link(self.returns@[i as int]@), "-"@]],
        );
        let ghost tab_close: Seq<char> = if tabs {
            "    "@ + "</TabItem>"@ + "\n"@
        } else {
            Seq::empty()
        };
        if tabs {
            r.append("    ");
            r.append("<TabItem value=\"overload-");
            let num = dec_string(i + 1);
            r.append(num.as_str());
            r.append("\" label=\"Overload ");
            r.append(num.as_str());
            r.append("\">");
            r.append("\n\n");
        }
        r.append("```lua\n");
        r.append(self.name.as_str());
        r.append("(");
        let sig = self.parameters[i].signature();
        r.append(sig.as_str());
        r.append(")");
        r.append("\n```");
        proof {
            assert(r@ =~= tab_open + "```lua\n"@ + self.name@ + "("@ + spec_signature(po) + ")"@
                + "\n```"@);
        }
        let ghost after_sig = r@;
        if self.parameters[i].0.len() > 0 {
            r.append("\n\n");
            let t = Table::new(
                "Parameters:".to_owned(),
                param_headers(),
                self.parameters[i].to_rows(),
            );
            let ts = t.render();
            r.append(ts.as_str());
        }
        proof {
            assert(r@ =~= after_sig + params_part);
        }
        let ghost after_params = r@;
        r.append("\n\n");
        let link = type_link(self.returns[i].as_str());
        let mut ret_row: Vec<String> = Vec::new();
        ret_row.push(link);
        ret_row.push("-".to_owned());
        let mut ret_rows: Vec<Vec<String>> = Vec::new();
        ret_rows.push(ret_row);
        proof {
            assert(ret_row.deep_view() =~= seq![spec_type_link(self.returns@[i as int]@), "-"@]);
            assert(ret_rows.deep_view() =~~= seq![
                seq![spec_type_link(self.returns@[i as int]@), "-"@],
            ]);
        }
        let rt = Table::new("Returns:".to_owned(), return_headers(), ret_rows);
        let rts = rt.render();
        r.append(rts.as_str());
        proof {
            assert(r@ =~= after_params + returns_part);
        }
        let ghost after_returns = r@;
        r.append("\n\n");
        r.append("**Example:**");
        r.append("\n\n");
        r.append("```lua\n--todo\n```");
        r.append("\n\n");
        proof {
            assert(r@ =~= after_returns + "\n\n"@ + "**Example:**"@ + "\n\n"@
                + "```lua\n--todo\n```"@ + "\n\n"@);
        }
        let ghost after_example = r@;
        if tabs {
            r.append("    ");
            r.append("</TabItem>");
            r.append("\n");
        }
        proof {
            assert(r@ =~= after_example + tab_close);
            assert(spec_overload_block(*self, i as int) == tab_open + "```lua\n"@ + self.name@
                + "("@ + spec_signature(po) + ")"@ + "\n```"@ + params_part + returns_part
                + "\n\n"@ + "**Example:**"@ + "\n\n"@ + "```lua\n--todo\n```"@ + "\n\n"@
                + tab_close);
            assert(r@ =~= spec_overload_block(*self, i as int));
        }
        r
    }

    /// Renders this method's documentation block. Succeeds exactly when the
    /// overload count matches the return-type count; on a mismatch the whole
    /// block fails with a diagnostic naming this method.
    pub fn render(&self) -> (r: Result<String, DocError>)
        ensures
            r is Ok <==> self.parameters@.len() == self.returns@.len(),
            r matches Ok(s) ==> s@ == spec_render_method(*self),
            r matches Err(e) ==> e == (DocError::OverloadMismatch { method: self.name }),
    {
        let np = self.parameters.len();
        if np != self.returns.len() {
            return Err(DocError::OverloadMismatch { method: self.name.clone() });
        }
        let tabs = np > 1;
        let mut r: String = "### <code>".to_owned();
        r.append(self.name.as_str());
        r.append("()");
        r.append("</code> \\{#");
        r.append(self.name.as_str());
        r.append("}");
        r.append("\n\n");
        let d = expand_newlines(self.description.as_str());
        r.append(d.as_str());
        r.append("\n\n");
        if tabs {
            r.append("<Tabs>");
            r.append("\n");
        }
        let ghost base = spec_anchor_header(self.name@ + "()"@, self.name@) + "\n\n"@
            + spec_expand_newlines(self.description@) + "\n\n"@ + (if spec_method_has_tabs(
            *self,
        ) {
            "<Tabs>"@ + "\n"@
        } else {
            Seq::empty()
        });
        proof {
            assert(r@ =~= base);
        }
        let mut i: usize = 0;
        while i < np
            invariant
                i <= np,
                np == self.parameters@.len(),
                np == self.returns@.len(),
                tabs == spec_method_has_tabs(*self),
                base == spec_anchor_header(self.name@ + "()"@, self.name@) + "\n\n"@
                    + spec_expand_newlines(self.description@) + "\n\n"@ + (
                if spec_method_has_tabs(*self) {
                    "<Tabs>"@ + "\n"@
                } else {
                    Seq::empty()
                }),
                r@ == base + spec_overload_blocks(*self, i as int),
            decreases np - i,
        {
            let block = self.overload_block(i);
            r.append(block.as_str());
            proof {
                assert(r@ =~= base + spec_overload_blocks(*self, i + 1 as int));
            }
            i = i + 1;
        }
        if tabs {
            r.append("</Tabs>");
            r.append("\n\n");
        }
        r.append("---");
        proof {
            assert(r@ =~= spec_render_method(*self));
        }
        Ok(r)
    }
}

/// Every method's overload count matches its return-type count.
pub open spec fn spec_methods_ok(ms: Seq<Method>) -> bool {
    forall|i: int|
        0 <= i < ms.len() ==> (#[trigger] ms[i]).parameters@.len() == ms[i].returns@.len()
}

/// No field of type `Function` carries child documentation pages.
pub open spec fn spec_fields_ok(fs: Seq<Field>) -> bool {
    forall|i: int|
        0 <= i < fs.len() ==> !((#[trigger] fs[i]).type_tag@ == "Function"@ && fs[i].children@.len()
            > 0)
}

/// The least index of a method whose overload and return counts differ;
/// the sequence length when every method is consistent.
pub open spec fn spec_first_bad_method(ms: Seq<Method>) -> int
    decreases ms.len(),
{
    if ms.len() == 0 {
        0
    } else if ms[0].parameters@.len() != ms[0].returns@.len() {
        0
    } else {
        1 + spec_first_bad_method(ms.skip(1))
    }
}

/// The least index of a field of type `Function` that carries children;
/// the sequence length when every field is consistent.
pub open spec fn spec_first_bad_field(fs: Seq<Field>) -> int
    decreases fs.len(),
{
    if fs.len() == 0 {
        0
    } else if fs[0].type_tag@ == "Function"@ && fs[0].children@.len() > 0 {
        0
    } else {
        1 + spec_first_bad_field(fs.skip(1))
    }
}

proof fn lemma_first_bad_method(ms: Seq<Method>, i: int)
    requires
        0 <= i < ms.len(),
        forall|k: int|
            0 <= k < i ==> (#[trigger] ms[k]).parameters@.len() == ms[k].returns@.len(),
        ms[i].parameters@.len() != ms[i].returns@.len(),
    ensures
        spec_first_bad_method(ms) == i,
    decreases i,
{
    if i > 0 {
        lemma_first_bad_method(ms.skip(1), i - 1);
    }
}

proof fn lemma_first_bad_field(fs: Seq<Field>, i: int)
    requires
        0 <= i < fs.len(),
        forall|k: int|
            0 <= k < i ==> !((#[trigger] fs[k]).type_tag@ == "Function"@ && fs[k].children@.len()
                > 0),
        fs[i].type_tag@ == "Function"@ && fs[i].children@.len() > 0,
    ensures
        spec_first_bad_field(fs) == i,
    decreases i,
{
    if i > 0 {
        lemma_first_bad_field(fs.skip(1), i - 1);
    }
}

/// A page renders only when its data is sound: every method's overload
/// count matches its return-type count, and no field of type `Function`
/// carries child pages.
pub open spec fn spec_class_renderable(c: Class) -> bool {
    spec_methods_ok(c.methods@) && spec_fields_ok(c.fields@)
}

/// The fault reported for an unsound page: the first offending method if
/// any method is inconsistent, otherwise the first offending field.
pub open spec fn spec_class_error(c: Class) -> DocError {
    if !spec_methods_ok(c.methods@) {
        DocError::OverloadMismatch {
            method: c.methods@[spec_first_bad_method(c.methods@)].name,
        }
    } else {
        DocError::FunctionFieldChildren {
            field: c.fields@[spec_first_bad_field(c.fields@)].name,
        }
    }
}

/// A page opens with the tab-group import block exactly when some method on
/// it has more than one overload.
pub open spec fn spec_class_has_tabs(c: Class) -> bool {
    exists|i: int|
        0 <= i < c.methods@.len() && (#[trigger] c.methods@[i]).parameters@.len() > 1
}

/// The two import lines for the tab-group UI component.
pub open spec fn spec_tab_imports() -> Seq<char> {
    "import Tabs from '@theme/Tabs'"@ + "\n"@ + "import TabItem from '@theme/TabItem'"@ + "\n\n"@
}

/// The first `n` method blocks of a page, each preceded by a paragraph break.
pub open spec fn spec_method_blocks(ms: Seq<Method>, n: int) -> Seq<char>
    decreases n,
{
    if n <= 0 {
        Seq::empty()
    } else {
        spec_method_blocks(ms, n - 1) + "\n\n"@ + spec_render_method(ms[n - 1])
    }
}

/// The first `n` field blocks of a page, each preceded by a paragraph break.
pub open spec fn spec_field_blocks(fs: Seq<Field>, n: int) -> Seq<char>
    decreases n,
{
    if n <= 0 {
        Seq::empty()
    } else {
        spec_field_blocks(fs, n - 1) + "\n\n"@ + spec_render_field(fs[n - 1])
    }
}

/// The page text after the optional import block: the expanded description,
/// the Methods section, then the Fields section.
pub open spec fn spec_render_class_body(c: Class) -> Seq<char> {
    spec_expand_newlines(c.description@) + "\n\n"@ + "## Methods"@ + spec_method_blocks(
        c.methods@,
        c.methods@.len() as int,
    ) + "\n\n"@ + "## Fields"@ + spec_field_blocks(c.fields@, c.fields@.len() as int)
}

/// The whole rendered page.
pub open spec fn spec_render_class(c: Class) -> Seq<char> {
    (if spec_class_has_tabs(c) {
        spec_tab_imports()
    } else {
        Seq::empty()
    }) + spec_render_class_body(c)
}

impl Class {
    /// Renders this page. Succeeds exactly when the page's data is sound:
    /// every method's overload count matches its return-type count, and no
    /// field of type `Function` carries child pages. On a fault the whole
    /// page render fails with a diagnostic naming the first offender.
    #[verifier::rlimit(100)]
    pub fn render(&self) -> (r: Result<String, DocError>)
        ensures
            r is Ok <==> spec_class_renderable(*self),
            r matches Ok(s) ==> s@ == spec_render_class(*self),
            r matches Err(e) ==> e == spec_class_error(*self),
    {
        let nm = self.methods.len();
        let mut has_tabs = false;
        let mut i: usize = 0;
        while i < nm
            invariant
                i <= nm,
                nm == self.methods@.len(),
                forall|k: int|
                    0 <= k < i ==> (#[trigger] self.methods@[k]).parameters@.len()
                        == self.methods@[k].returns@.len(),
                has_tabs == exists|k: int|
                    0 <= k < i && (#[trigger] self.methods@[k]).parameters@.len() > 1,
            decreases nm - i,
        {
            let m = &self.methods[i];
            if m.parameters.len() != m.returns.len() {
                proof {
                    lemma_first_bad_method(self.methods@, i as int);
                }
                return Err(DocError::OverloadMismatch { method: m.name.clone() });
            }
            if m.parameters.len() > 1 {
                has_tabs = true;
            }
            i = i + 1;
        }
        let nf = self.fields.len();
        let mut i: usize = 0;
        while i < nf
            invariant
                i <= nf,
                nf == self.fields@.len(),
                spec_methods_ok(self.methods@),
                forall|k: int|
                    0 <= k < i ==> !((#[trigger] self.fields@[k]).type_tag@ == "Function"@
                        && self.fields@[k].children@.len() > 0),
            decreases nf - i,
        {
            let f = &self.fields[i];
            if f.children.len() > 0 && str_eq(f.type_tag.as_str(), "Function") {
                proof {
                    lemma_first_bad_field(self.fields@, i as int);
                }
                return Err(DocError::FunctionFieldChildren { field: f.name.clone() });
            }
            i = i + 1;
        }
        let mut r = String::new();
        if has_tabs {
            r.append("import Tabs from '@theme/Tabs'");
            r.append("\n");
            r.append("import TabItem from '@theme/TabItem'");
            r.append("\n\n");
        }
        let d = expand_newlines(self.description.as_str());
        r.append(d.as_str());
        r.append("\n\n");
        r.append("## Methods");
        let ms = self.render_methods();
        r.append(ms.as_str());
        r.append("\n\n");
        r.append("## Fields");
        let fs = self.render_fields();
        r.append(fs.as_str());
        proof {
            assert(r@ =~= spec_render_class(*self));
        }
        Ok(r)
    }

    /// Renders the Methods section's blocks, one per method in declaration
    /// order, each opened by a paragraph break.
    fn render_methods(&self) -> (r: String)
        requires
            spec_methods_ok(self.methods@),
        ensures
            r@ == spec_method_blocks(self.methods@, self.methods@.len() as int),
    {
        let nm = self.methods.len();
        let mut r = String::new();
        let mut i: usize = 0;
        while i < nm
            invariant
                i <= nm,
                nm == self.methods@.len(),
                spec_methods_ok(self.methods@),
                r@ == spec_method_blocks(self.methods@, i as int),
            decreases nm - i,
        {
            r.append("\n\n");
            match self.methods[i].render() {
                Ok(s) => {
                    r.append(s.as_str());
                },
                Err(e) => {
                    // unreachable: every method was already checked consistent
                    proof {
                        assert(false);
                    }
                    return r;
                },
            }
            proof {
                assert(r@ =~= spec_method_blocks(self.methods@, i + 1 as int));
            }
            i = i + 1;
        }
        r
    }

    /// Renders the Fields section's blocks, one per field in declaration
    /// order, each opened by a paragraph break.
    fn render_fields(&self) -> (r: String)
        ensures
            r@ == spec_field_blocks(self.fields@, self.fields@.len() as int),
    {
        let nf = self.fields.len();
        let mut r = String::new();
        let mut i: usize = 0;
        while i < nf
            invariant
                i <= nf,
                nf == self.fields@.len(),
                r@ == spec_field_blocks(self.fields@, i as int),
            decreases nf - i,
        {
            r.append("\n\n");
            let fs = self.fields[i].render();
            r.append(fs.as_str());
            proof {
                assert(r@ =~= spec_field_blocks(self.fields@, i + 1 as int));
            }
            i = i + 1;
        }
        r
    }
}

/// Determinism: two renderings of the same documentation page are
/// character-for-character identical.
pub proof fn lemma_render_deterministic(c: Class, r1: String, r2: String)
    requires
        r1@ == spec_render_class(c),
        r2@ == spec_render_class(c),
    ensures
        r1@ == r2@,
{
}

/// Tab-group gating: a page's text opens with the tab-group import block
/// exactly when some method on it has more than one overload, and a
/// method's block wraps its overloads in `<Tabs>` exactly when that method
/// itself has more than one overload.
pub proof fn lemma_tab_group_gating(c: Class, m: Method)
    ensures
        spec_render_class(c) == (if exists|i: int|
            0 <= i < c.methods@.len() && (#[trigger] c.methods@[i]).parameters@.len() > 1 {
            spec_tab_imports()
        } else {
            Seq::empty()
        }) + spec_render_class_body(c),
        spec_render_method(m) == spec_anchor_header(m.name@ + "()"@, m.name@) + "\n\n"@
            + spec_expand_newlines(m.description@) + "\n\n"@ + (if m.parameters@.len() > 1 {
            "<Tabs>"@ + "\n"@
        } else {
            Seq::empty()
        }) + spec_overload_blocks(m, m.parameters@.len() as int) + (if m.parameters@.len() > 1 {
            "</Tabs>"@ + "\n\n"@
        } else {
            Seq::empty()
        }) + "---"@,
{
}

/// Overload-return pairing: the block rendered for overload `i` carries a
/// Returns table whose single row links `returns[i]`, never another index.
pub proof fn lemma_overload_return_pairing(m: Method, i: int)
    requires
        0 <= i < m.parameters@.len(),
    ensures
        spec_overload_block(m, i) == (if spec_method_has_tabs(m) {
            "    "@ + "<TabItem value=\"overload-"@ + spec_dec((i + 1) as nat)
                + "\" label=\"Overload "@ + spec_dec((i + 1) as nat) + "\">"@ + "\n\n"@
        } else {
            Seq::empty()
        }) + "```lua\n"@ + m.name@ + "("@ + spec_signature(m.parameters@[i]) + ")"@ + "\n```"@ + (
        if m.parameters@[i].0@.len() > 0 {
            "\n\n"@ + spec_render_table(
                "Parameters:"@,
                spec_param_headers(),
                spec_param_rows(m.parameters@[i].0@, m.parameters@[i].0@.len() as int),
            )
        } else {
            Seq::empty()
        }) + "\n\n"@ + spec_render_table(
            "Returns:"@,
            spec_return_headers(),
            seq![seq![spec_type_link(m.returns@[i]@), "-"@]],
        ) + "\n\n"@ + "**Example:**"@ + "\n\n"@ + "```lua\n--todo\n```"@ + "\n\n"@ + (
        if spec_method_has_tabs(m) {
            "    "@ + "</TabItem>"@ + "\n"@
        } else {
            Seq::empty()
        }),
{
}

} // verus!
