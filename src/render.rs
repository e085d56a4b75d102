//! Text renderings of a finished tree.
use vstd::prelude::*;
use vstd::string::*;
use crate::declaration::{items_view, kind_label, ItemView, PublicItem};
use crate::tree::{lemma_modules_view_index, module_view, modules_view, Lib, LibView, Module, ModuleView};

verus! {

/// The diagram's opening lines.
pub open spec fn mermaid_header(name: Seq<char>) -> Seq<char> {
    "---\ntitle: "@ + name + " entity diagram\n---\nerDiagram\n"@
}

/// The containment edge from `parent` to `child`.
pub open spec fn mermaid_edge(parent: Seq<char>, child: Seq<char>) -> Seq<char> {
    "  \""@ + parent + "\" ||--|{ \""@ + child + "\" : \"\"\n"@
}

/// One interface line.
pub open spec fn mermaid_item(i: ItemView) -> Seq<char> {
    "    "@ + kind_label(i.kind) + " "@ + i.name + "\n"@
}

/// The interface lines of `items`, in order.
pub open spec fn mermaid_items(items: Seq<ItemView>) -> Seq<char>
    decreases items.len(),
{
    if items.len() == 0 {
        seq![]
    } else {
        mermaid_items(items.drop_last()) + mermaid_item(items.last())
    }
}

/// The attribute block of the node at `path`.
pub open spec fn mermaid_block(path: Seq<char>, items: Seq<ItemView>) -> Seq<char> {
    "  \""@ + path + "\" {\n"@ + mermaid_items(items) + "  }\n"@
}

/// A module's part of the diagram: for each child in order, the edge to it and
/// then the child's own part; after all of them, the module's block.
pub open spec fn mermaid_module(m: ModuleView) -> Seq<char>
    decreases m,
{
    mermaid_children(m.path, m.children) + mermaid_block(m.path, m.interface)
}

/// The edges from `parent` to each of `cs`, each followed by that child's part.
pub open spec fn mermaid_children(parent: Seq<char>, cs: Seq<ModuleView>) -> Seq<char>
    decreases cs,
{
    if cs.len() == 0 {
        seq![]
    } else {
        mermaid_children(parent, cs.drop_last()) + mermaid_edge(parent, cs.last().path)
            + mermaid_module(cs.last())
    }
}

/// The whole diagram of a library: header, the top-level modules' parts, and
/// the root's block last.
pub open spec fn mermaid_lib(l: LibView) -> Seq<char> {
    mermaid_header(l.name) + mermaid_children(l.name, l.modules) + mermaid_block(
        l.name,
        l.interface,
    )
}

/// An undirected edge of the graph rendering.
pub open spec fn dot_edge(parent: Seq<char>, child: Seq<char>) -> Seq<char> {
    "\""@ + parent + "\" -- \""@ + child + "\"\n"@
}

/// The edges below a module, depth first.
pub open spec fn dot_module(m: ModuleView) -> Seq<char>
    decreases m,
{
    dot_children(m.path, m.children)
}

/// The edges from `parent` to each of `cs`, each followed by the edges below it.
pub open spec fn dot_children(parent: Seq<char>, cs: Seq<ModuleView>) -> Seq<char>
    decreases cs,
{
    if cs.len() == 0 {
        seq![]
    } else {
        dot_children(parent, cs.drop_last()) + dot_edge(parent, cs.last().path) + dot_module(
            cs.last(),
        )
    }
}

/// The graph rendering of a library.
pub open spec fn dot_lib(l: LibView) -> Seq<char> {
    "graph graphname {\n"@ + dot_children(l.name, l.modules) + "}\n"@
}

fn write_edge(out: &mut String, parent: &str, child: &str)
    ensures
        final(out)@ == old(out)@ + mermaid_edge(parent@, child@),
{
    out.append("  \"");
    out.append(parent);
    out.append("\" ||--|{ \"");
    out.append(child);
    out.append("\" : \"\"\n");
    assert(final(out)@ =~= old(out)@ + mermaid_edge(parent@, child@));
}

fn write_block(out: &mut String, path: &str, items: &Vec<PublicItem>)
    ensures
        final(out)@ == old(out)@ + mermaid_block(path@, items_view(items@)),
{
    let ghost start = out@;
    out.append("  \"");
    out.append(path);
    out.append("\" {\n");
    let ghost head = out@;
    let ghost views = items_view(items@);
    let mut i: usize = 0;
    assert(views.take(0) =~= seq![]);
    assert(head =~= head + mermaid_items(views.take(0)));
    while i < items.len()
        invariant
            i <= items@.len(),
            views == items_view(items@),
            views.len() == items@.len(),
            out@ == head + mermaid_items(views.take(i as int)),
        decreases items@.len() - i,
    {
        let item = &items[i];
        let ghost before = out@;
        out.append("    ");
        out.append(item.kind.label());
        out.append(" ");
        out.append(item.name.as_str());
        out.append("\n");
        proof {
            assert(views.take(i + 1).drop_last() =~= views.take(i as int));
            assert(views.take(i + 1).last() == item@);
            assert(out@ =~= before + mermaid_item(item@));
        }
        i = i + 1;
    }
    assert(views.take(i as int) =~= views);
    out.append("  }\n");
    assert(out@ =~= start + mermaid_block(path@, views));
}

fn write_dot_edge(out: &mut String, parent: &str, child: &str)
    ensures
        final(out)@ == old(out)@ + dot_edge(parent@, child@),
{
    out.append("\"");
    out.append(parent);
    out.append("\" -- \"");
    out.append(child);
    out.append("\"\n");
    assert(final(out)@ =~= old(out)@ + dot_edge(parent@, child@));
}

/// Appends, for each of `children` in order, the edge from `parent` to it and then its own part.
fn write_mermaid_children(out: &mut String, parent: &str, children: &Vec<Module>)
    ensures
        final(out)@ == old(out)@ + mermaid_children(parent@, modules_view(children@)),
    decreases children@, 0nat,
{
    let ghost start = out@;
    let ghost views = modules_view(children@);
    proof {
        lemma_modules_view_index(children@);
    }
    let mut i: usize = 0;
    assert(views.take(0) =~= seq![]);
    assert(start =~= start + mermaid_children(parent@, views.take(0)));
    while i < children.len()
        invariant
            i <= children@.len(),
            views == modules_view(children@),
            views.len() == children@.len(),
            forall|k: int| 0 <= k < children@.len() ==> #[trigger] views[k] == module_view(children@[k]),
            out@ == start + mermaid_children(parent@, views.take(i as int)),
        decreases children@.len() - i,
    {
        let child = &children[i];
        let ghost before = out@;
        write_edge(out, parent, child.usepath.as_str());
        proof {
            assert(decreases_to!(children@ => children@[i as int]));
        }
        child.write_mermaid(out);
        proof {
            assert(views.take(i + 1).drop_last() =~= views.take(i as int));
            assert(views.take(i + 1).last() == module_view(*child));
            assert(out@ =~= start + mermaid_children(parent@, views.take(i + 1)));
        }
        i = i + 1;
    }
    assert(views.take(i as int) =~= views);
}

/// Appends, for each of `children` in order, the graph edge from `parent` to it and then the edges below it.
fn write_dot_children(out: &mut String, parent: &str, children: &Vec<Module>)
    ensures
        final(out)@ == old(out)@ + dot_children(parent@, modules_view(children@)),
    decreases children@, 0nat,
{
    let ghost start = out@;
    let ghost views = modules_view(children@);
    proof {
        lemma_modules_view_index(children@);
    }
    let mut i: usize = 0;
    assert(views.take(0) =~= seq![]);
    assert(start =~= start + dot_children(parent@, views.take(0)));
    while i < children.len()
        invariant
            i <= children@.len(),
            views == modules_view(children@),
            views.len() == children@.len(),
            forall|k: int| 0 <= k < children@.len() ==> #[trigger] views[k] == module_view(children@[k]),
            out@ == start + dot_children(parent@, views.take(i as int)),
        decreases children@.len() - i,
    {
        let child = &children[i];
        write_dot_edge(out, parent, child.usepath.as_str());
        proof {
            assert(decreases_to!(children@ => children@[i as int]));
        }
        child.write_dot(out);
        proof {
            assert(views.take(i + 1).drop_last() =~= views.take(i as int));
            assert(views.take(i + 1).last() == module_view(*child));
            assert(out@ =~= start + dot_children(parent@, views.take(i + 1)));
        }
        i = i + 1;
    }
    assert(views.take(i as int) =~= views);
}

impl Module {
    /// Appends this module's part of the diagram: the edge to each child followed by
    /// the child's part, depth first, and then this module's own block.
    pub fn write_mermaid(&self, out: &mut String)
        ensures
            final(out)@ == old(out)@ + mermaid_module(module_view(*self)),
        decreases self.children@, 1nat,
    {
        write_mermaid_children(out, self.usepath.as_str(), &self.children);
        write_block(out, self.usepath.as_str(), &self.interface);
    }

    /// Appends the graph edges below this module, depth first.
    pub fn write_dot(&self, out: &mut String)
        ensures
            final(out)@ == old(out)@ + dot_module(module_view(*self)),
        decreases self.children@, 1nat,
    {
        write_dot_children(out, self.usepath.as_str(), &self.children);
    }
}

impl Lib {
    /// The entity diagram of the library: a header, then each top-level module's
    /// edge and part in order, and the root's block last.
    pub fn create_mermaid(&self) -> (r: String)
        ensures
            r@ == mermaid_lib(self@),
    {
        let mut out = String::new();
        out.append("---\ntitle: ");
        out.append(self.name.as_str());
        out.append(" entity diagram\n---\nerDiagram\n");
        assert(out@ =~= mermaid_header(self.name@));
        write_mermaid_children(&mut out, self.name.as_str(), &self.modules);
        write_block(&mut out, self.name.as_str(), &self.interface);
        assert(out@ =~= mermaid_lib(self@));
        out
    }

    /// The undirected graph of the library's containment edges, depth first.
    pub fn create_dot(&self) -> (r: String)
        ensures
            r@ == dot_lib(self@),
    {
        let mut out = String::new();
        out.append("graph graphname {\n");
        write_dot_children(&mut out, self.name.as_str(), &self.modules);
        out.append("}\n");
        assert(out@ =~= dot_lib(self@));
        out
    }
}

/// Rendering is a function of the tree alone: two libraries that mean the same
/// tree, such as one library rendered twice, give byte-identical diagrams.
pub proof fn law_rendering_is_deterministic(a: Lib, b: Lib)
    requires
        a@ == b@,
    ensures
        mermaid_lib(a@) == mermaid_lib(b@),
        dot_lib(a@) == dot_lib(b@),
{
}

} // verus!
