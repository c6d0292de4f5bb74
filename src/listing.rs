//! The HTML index page of a directory: a link to the parent, then one link
//! per immediate child, every href and label HTML-escaped, every href
//! root-relative and starting with `/`.

use vstd::prelude::*;
use crate::text::{html_escaped, attr_escaped, escape_html, escape_attribute, chars_of, string_of_chars, take_chars};

verus! {

/// Everything before the heading.
pub const PAGE_HEAD: &'static str = "
<!DOCTYPE html>
<html>
<head>
    <meta charset=\"utf-8\">
    <style>
        body { font-family: Arial, sans-serif; }
        a { text-decoration: none; color: blue; }
        a:hover { text-decoration: underline; }
    </style>
</head>
<body>";

/// Everything after the links.
pub const PAGE_TAIL: &'static str = "
</body>
</html>";

/// The part of `p` below `root`, without a leading `/`.
pub open spec fn relative_part(root: Seq<char>, p: Seq<char>) -> Seq<char> {
    if p.len() <= root.len() {
        Seq::empty()
    } else {
        let t = p.skip(root.len() as int);
        if t[0] == '/' { t.drop_first() } else { t }
    }
}

/// The index of the last `c` in `s`, if any.
pub open spec fn last_index(s: Seq<char>, c: char) -> Option<int>
    decreases s.len(),
{
    if s.len() == 0 {
        None
    } else if s.last() == c {
        Some(s.len() - 1)
    } else {
        last_index(s.drop_last(), c)
    }
}

/// The root-relative path of the parent of the directory at `rel`; the root
/// and its immediate children have the root (the empty path) as parent.
pub open spec fn parent_relative(rel: Seq<char>) -> Seq<char> {
    match last_index(rel, '/') {
        Some(i) => rel.take(i),
        None => Seq::empty(),
    }
}

/// The root-relative path of the child `name` of the directory at `rel`.
pub open spec fn child_relative(rel: Seq<char>, name: Seq<char>) -> Seq<char> {
    if rel.len() == 0 { name } else { rel.push('/') + name }
}

/// The href of a root-relative path.
pub open spec fn href_of(rel: Seq<char>) -> Seq<char> {
    seq!['/'] + rel
}

/// One link line of the listing.
pub open spec fn link_markup(href: Seq<char>, label: Seq<char>) -> Seq<char> {
    "<a href=\""@ + attr_escaped(href) + "\">"@ + html_escaped(label) + "</a><br>"@
}

/// The link to the parent directory.
pub open spec fn parent_markup(rel: Seq<char>) -> Seq<char> {
    link_markup(href_of(parent_relative(rel)), seq!['.', '.'])
}

/// The link lines of the children, one per name, in the order given.
pub open spec fn entries_markup(rel: Seq<char>, names: Seq<Seq<char>>) -> Seq<char>
    decreases names.len(),
{
    if names.len() == 0 {
        Seq::empty()
    } else {
        entries_markup(rel, names.drop_last()) + link_markup(
            href_of(child_relative(rel, names.last())),
            names.last(),
        )
    }
}

/// The index page of directory `dir` below `root` whose children are `names`.
pub open spec fn listing_page(root: Seq<char>, dir: Seq<char>, names: Seq<Seq<char>>) -> Seq<char> {
    let rel = relative_part(root, dir);
    PAGE_HEAD@ + "<h1>Currently in "@ + html_escaped(dir) + "</h1>"@ + parent_markup(rel)
        + entries_markup(rel, names) + PAGE_TAIL@
}

/// The link line of each child, in the order given.
pub open spec fn child_links(rel: Seq<char>, names: Seq<Seq<char>>) -> Seq<Seq<char>> {
    names.map_values(|n: Seq<char>| link_markup(href_of(child_relative(rel, n)), n))
}

proof fn lemma_entries_are_child_links(rel: Seq<char>, names: Seq<Seq<char>>)
    ensures
        entries_markup(rel, names) == child_links(rel, names).flatten(),
    decreases names.len(),
{
    if names.len() > 0 {
        lemma_entries_are_child_links(rel, names.drop_last());
        assert(child_links(rel, names) =~= child_links(rel, names.drop_last()).push(
            link_markup(href_of(child_relative(rel, names.last())), names.last()),
        ));
        child_links(rel, names.drop_last()).lemma_flatten_push(
            link_markup(href_of(child_relative(rel, names.last())), names.last()),
        );
    }
}

/// A directory's index page holds, between its heading and its tail, the
/// parent link once and then exactly one link line per immediate child, in
/// the order given, each child's href and label escaped.
pub proof fn law_listing_one_link_per_child(root: Seq<char>, dir: Seq<char>, names: Seq<Seq<char>>)
    ensures
        child_links(relative_part(root, dir), names).len() == names.len(),
        forall|i: int|
            0 <= i < names.len() ==> #[trigger] child_links(relative_part(root, dir), names)[i]
                == link_markup(href_of(child_relative(relative_part(root, dir), names[i])), names[i]),
        listing_page(root, dir, names) == PAGE_HEAD@ + "<h1>Currently in "@ + html_escaped(dir)
            + "</h1>"@ + parent_markup(relative_part(root, dir)) + child_links(
            relative_part(root, dir),
            names,
        ).flatten() + PAGE_TAIL@,
{
    lemma_entries_are_child_links(relative_part(root, dir), names);
}

/// The views of a sequence of strings.
pub open spec fn string_views(v: Seq<String>) -> Seq<Seq<char>> {
    v.map_values(|s: String| s@)
}

fn relative_part_exec(root: &Vec<char>, p: &Vec<char>) -> (r: Vec<char>)
    ensures
        r@ == relative_part(root@, p@),
{
    let mut r: Vec<char> = Vec::new();
    if p.len() <= root.len() {
        return r;
    }
    let mut i: usize = root.len();
    if p[i] == '/' {
        i = i + 1;
    }
    let start: usize = i;
    let ghost want = relative_part(root@, p@);
    assert(want =~= p@.subrange(start as int, p@.len() as int));
    while i < p.len()
        invariant
            start <= i <= p@.len(),
            r@ == p@.subrange(start as int, i as int),
        decreases p@.len() - i,
    {
        r.push(p[i]);
        i = i + 1;
        assert(r@ =~= p@.subrange(start as int, i as int));
    }
    r
}

fn parent_relative_exec(rel: &Vec<char>) -> (r: Vec<char>)
    ensures
        r@ == parent_relative(rel@),
{
    let mut i: usize = rel.len();
    assert(rel@.take(i as int) =~= rel@);
    while i > 0
        invariant
            i <= rel@.len(),
            last_index(rel@, '/') == last_index(rel@.take(i as int), '/'),
        decreases i,
    {
        let ghost pre = rel@.take(i as int);
        assert(pre.drop_last() =~= rel@.take(i - 1));
        if rel[i - 1] == '/' {
            return take_chars(rel, i - 1);
        }
        i = i - 1;
    }
    Vec::new()
}

fn link_line(href: &Vec<char>, label: &Vec<char>, out: &mut String)
    ensures
        final(out)@ == old(out)@ + link_markup(href@, label@),
{
    let h = string_of_chars(href);
    let l = string_of_chars(label);
    let eh = escape_attribute(h.as_str());
    let el = escape_html(l.as_str());
    out.append("<a href=\"");
    out.append(eh.as_str());
    out.append("\">");
    out.append(el.as_str());
    out.append("</a><br>");
}

fn href_exec(rel: &Vec<char>) -> (r: Vec<char>)
    ensures
        r@ == href_of(rel@),
{
    let mut r: Vec<char> = Vec::new();
    r.push('/');
    let mut i: usize = 0;
    while i < rel.len()
        invariant
            i <= rel@.len(),
            r@ == seq!['/'] + rel@.take(i as int),
        decreases rel@.len() - i,
    {
        r.push(rel[i]);
        i = i + 1;
        assert(r@ =~= seq!['/'] + rel@.take(i as int));
    }
    assert(rel@.take(rel@.len() as int) =~= rel@);
    r
}

fn child_relative_exec(rel: &Vec<char>, name: &Vec<char>) -> (r: Vec<char>)
    ensures
        r@ == child_relative(rel@, name@),
{
    let mut r = take_chars(rel, rel.len());
    assert(r@ =~= rel@);
    if rel.len() > 0 {
        r.push('/');
    }
    let ghost base = r@;
    let mut i: usize = 0;
    while i < name.len()
        invariant
            i <= name@.len(),
            r@ == base + name@.take(i as int),
        decreases name@.len() - i,
    {
        r.push(name[i]);
        i = i + 1;
        assert(r@ =~= base + name@.take(i as int));
    }
    assert(name@.take(name@.len() as int) =~= name@);
    r
}

/// Renders the index page of directory `dir` (a path at or below `root`)
/// whose immediate children are named `names`, in the order given.
pub fn render_listing(root: &str, dir: &str, names: &Vec<String>) -> (r: String)
    ensures
        r@ == listing_page(root@, dir@, string_views(names@)),
{
    let ghost nv = string_views(names@);
    let rc = chars_of(root);
    let dc = chars_of(dir);
    let rel = relative_part_exec(&rc, &dc);
    let mut out = String::from_str(PAGE_HEAD);
    out.append("<h1>Currently in ");
    let ed = escape_html(dir);
    out.append(ed.as_str());
    out.append("</h1>");
    let parent = parent_relative_exec(&rel);
    let ph = href_exec(&parent);
    let dots: Vec<char> = vec!['.', '.'];
    link_line(&ph, &dots, &mut out);
    let ghost before = out@;
    let mut i: usize = 0;
    assert(nv.take(0) =~= Seq::<Seq<char>>::empty());
    while i < names.len()
        invariant
            nv == string_views(names@),
            i <= names@.len(),
            out@ == before + entries_markup(rel@, nv.take(i as int)),
        decreases names@.len() - i,
    {
        let name = chars_of(names[i].as_str());
        assert(nv[i as int] == name@);
        assert(nv.take(i + 1).drop_last() =~= nv.take(i as int));
        let child = child_relative_exec(&rel, &name);
        let ch = href_exec(&child);
        link_line(&ch, &name, &mut out);
        i = i + 1;
        assert(out@ =~= before + entries_markup(rel@, nv.take(i as int)));
    }
    assert(nv.take(names@.len() as int) =~= nv);
    out.append(PAGE_TAIL);
    assert(out@ =~= listing_page(root@, dir@, nv));
    out
}

} // verus!
