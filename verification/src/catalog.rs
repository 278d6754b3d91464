//! The component catalog (`config/component-catalog.conf`) and the project
//! template catalog (`config/project-templates.conf`): line-oriented text
//! files with `# Category` headings and `name=value` entries.

use vstd::prelude::*;
use crate::text::{
    chars_of, contains, contains_str, has_char, lines, lines_str, rsplit_once, rsplit_once_vec,
    split_char, split_char_vec, split_once, split_once_vec, starts_with, starts_with_str,
    string_of, text_eq, texts, trim, trim_start_char, trim_start_char_vec, trim_vec, is_digit,
    is_digit_char, slice_of,
};

verus! {

/// One entry of the component catalog.
pub struct PackageEntry {
    pub name: String,
    pub url: String,
    pub category: String,
    pub preferred: bool,
    pub install_dir: String,
    pub installed: bool,
}

pub struct PackageEntryView {
    pub name: Seq<char>,
    pub url: Seq<char>,
    pub category: Seq<char>,
    pub preferred: bool,
    pub install_dir: Seq<char>,
    pub installed: bool,
}

impl View for PackageEntry {
    type V = PackageEntryView;

    open spec fn view(&self) -> PackageEntryView {
        PackageEntryView {
            name: self.name@,
            url: self.url@,
            category: self.category@,
            preferred: self.preferred,
            install_dir: self.install_dir@,
            installed: self.installed,
        }
    }
}

pub open spec fn package_views(s: Seq<PackageEntry>) -> Seq<PackageEntryView> {
    s.map_values(|e: PackageEntry| e@)
}

/// A heading that names a category: not empty, not a link, and not one of the
/// explanatory remarks that the catalog also writes after `#`.
pub open spec fn is_category_label(label: Seq<char>) -> bool {
    &&& label.len() > 0
    &&& !starts_with(label, "http"@)
    &&& !contains(label, "After download"@)
    &&& !contains(label, "NTS ="@)
    &&& !contains(label, "Menu >"@)
}

/// The text of a `#` heading line.
pub open spec fn heading_label(t: Seq<char>) -> Seq<char> {
    trim(trim_start_char(t, '#'))
}

/// A line that carries nothing: blank, or the `---` separator.
pub open spec fn is_blank_line(t: Seq<char>) -> bool {
    t.len() == 0 || t == "---"@
}

/// The effect of one catalog line on (current category, entries so far).
pub open spec fn package_catalog_step(
    st: (Seq<char>, Seq<PackageEntryView>),
    line: Seq<char>,
) -> (Seq<char>, Seq<PackageEntryView>) {
    let t = trim(line);
    if is_blank_line(t) {
        st
    } else if t[0] == '#' {
        let label = heading_label(t);
        if is_category_label(label) {
            (label, st.1)
        } else {
            st
        }
    } else {
        match split_once(t, '=') {
            None => st,
            Some((name, url)) => (
                st.0,
                st.1.push(
                    PackageEntryView {
                        name: trim(trim_start_char(name, '*')),
                        url: trim(url),
                        category: st.0,
                        preferred: name.len() > 0 && name[0] == '*',
                        install_dir: Seq::<char>::empty(),
                        installed: false,
                    },
                ),
            ),
        }
    }
}

/// The state after the given lines, starting in category "Geral".
pub open spec fn package_catalog_fold(ls: Seq<Seq<char>>) -> (Seq<char>, Seq<PackageEntryView>)
    decreases ls.len(),
{
    if ls.len() == 0 {
        ("Geral"@, Seq::empty())
    } else {
        package_catalog_step(package_catalog_fold(ls.drop_last()), ls.last())
    }
}

/// The entries of a component catalog.
pub open spec fn package_catalog(raw: Seq<char>) -> Seq<PackageEntryView> {
    package_catalog_fold(lines(raw)).1
}

fn is_blank_line_exec(t: &Vec<char>) -> (b: bool)
    ensures
        b == is_blank_line(t@),
{
    let sep = chars_of("---");
    t.len() == 0 || text_eq(t, &sep)
}

fn is_category_label_exec(label: &Vec<char>) -> (b: bool)
    ensures
        b == is_category_label(label@),
{
    label.len() > 0 && !starts_with_str(label, "http") && !contains_str(label, "After download")
        && !contains_str(label, "NTS =") && !contains_str(label, "Menu >")
}

fn heading_label_exec(t: &Vec<char>) -> (r: Vec<char>)
    ensures
        r@ == heading_label(t@),
{
    let u = trim_start_char_vec(t, '#');
    trim_vec(&u)
}

/// Parses a component catalog: `# Category` headings (remarks after `#` that
/// are links or instructions leave the category unchanged), `name=url` entries
/// (a leading `*` marks the preferred one), blank lines and `---` ignored.
pub fn parse_package_catalog(raw: &str) -> (r: Vec<PackageEntry>)
    ensures
        package_views(r@) == package_catalog(raw@),
{
    let ls = lines_str(raw);
    let mut category = chars_of("Geral");
    let mut entries: Vec<PackageEntry> = Vec::new();
    let mut i: usize = 0;
    while i < ls.len()
        invariant
            i <= ls.len(),
            texts(ls@) == lines(raw@),
            (category@, package_views(entries@)) == package_catalog_fold(texts(ls@).take(i as int)),
        decreases ls.len() - i,
    {
        let ghost st = (category@, package_views(entries@));
        assert(texts(ls@).take(i + 1).drop_last() =~= texts(ls@).take(i as int));
        assert(texts(ls@).take(i + 1).last() == ls@[i as int]@);
        let t = trim_vec(&ls[i]);
        if is_blank_line_exec(&t) {
        } else if t[0] == '#' {
            let label = heading_label_exec(&t);
            if is_category_label_exec(&label) {
                category = label;
            }
        } else {
            match split_once_vec(&t, '=') {
                None => {},
                Some((name, url)) => {
                    let preferred = name.len() > 0 && name[0] == '*';
                    let clean = trim_start_char_vec(&name, '*');
                    let clean = trim_vec(&clean);
                    let url_t = trim_vec(&url);
                    let entry = PackageEntry {
                        name: string_of(&clean),
                        url: string_of(&url_t),
                        category: string_of(&category),
                        preferred,
                        install_dir: String::new(),
                        installed: false,
                    };
                    entries.push(entry);
                    assert(package_views(entries@) =~= st.1.push(entry@));
                },
            }
        }
        i += 1;
    }
    assert(texts(ls@).take(ls.len() as int) =~= texts(ls@));
    entries
}


// ---------------------------------------------------------------------------
// Project templates
// ---------------------------------------------------------------------------

/// One entry of the project template catalog.
pub struct SiteTemplate {
    pub name: String,
    pub framework: String,
    pub version: String,
    pub source: String,
    pub category: String,
    pub php_min: Option<String>,
    pub php_max: Option<String>,
    pub preferred: bool,
}

pub struct SiteTemplateView {
    pub name: Seq<char>,
    pub framework: Seq<char>,
    pub version: Seq<char>,
    pub source: Seq<char>,
    pub category: Seq<char>,
    pub php_min: Option<Seq<char>>,
    pub php_max: Option<Seq<char>>,
    pub preferred: bool,
}

pub open spec fn opt_view(o: Option<String>) -> Option<Seq<char>> {
    match o {
        Some(s) => Some(s@),
        None => None,
    }
}

pub open spec fn opt_vec_view(o: Option<Vec<char>>) -> Option<Seq<char>> {
    match o {
        Some(s) => Some(s@),
        None => None,
    }
}

impl View for SiteTemplate {
    type V = SiteTemplateView;

    open spec fn view(&self) -> SiteTemplateView {
        SiteTemplateView {
            name: self.name@,
            framework: self.framework@,
            version: self.version@,
            source: self.source@,
            category: self.category@,
            php_min: opt_view(self.php_min),
            php_max: opt_view(self.php_max),
            preferred: self.preferred,
        }
    }
}

pub open spec fn template_views(s: Seq<SiteTemplate>) -> Seq<SiteTemplateView> {
    s.map_values(|e: SiteTemplate| e@)
}

/// Metadata written after the template name: framework, version, lowest and
/// highest PHP.
pub type TemplateMeta = (Option<Seq<char>>, Option<Seq<char>>, Option<Seq<char>>, Option<Seq<char>>);

/// The value after `key`, trimmed, when `t` starts with `key`.
pub open spec fn after_key(t: Seq<char>, key: Seq<char>) -> Option<Seq<char>> {
    if starts_with(t, key) {
        Some(trim(t.skip(key.len() as int)))
    } else {
        None
    }
}

/// The effect of one `|`-separated metadata piece; a later piece overrides an
/// earlier one of the same kind, and `php<=` is tried before `php<`.
pub open spec fn meta_step(m: TemplateMeta, part: Seq<char>, with_names: bool) -> TemplateMeta {
    let t = trim(part);
    if with_names && after_key(t, "framework="@) is Some {
        (after_key(t, "framework="@), m.1, m.2, m.3)
    } else if with_names && after_key(t, "version="@) is Some {
        (m.0, after_key(t, "version="@), m.2, m.3)
    } else if after_key(t, "php>="@) is Some {
        (m.0, m.1, after_key(t, "php>="@), m.3)
    } else if after_key(t, "php<="@) is Some {
        (m.0, m.1, m.2, after_key(t, "php<="@))
    } else if after_key(t, "php<"@) is Some {
        (m.0, m.1, m.2, after_key(t, "php<"@))
    } else {
        m
    }
}

pub open spec fn meta_fold(parts: Seq<Seq<char>>, with_names: bool) -> TemplateMeta
    decreases parts.len(),
{
    if parts.len() == 0 {
        (None, None, None, None)
    } else {
        meta_step(meta_fold(parts.drop_last(), with_names), parts.last(), with_names)
    }
}

/// `name|framework=..|version=..|php>=..|php<=..`: the trimmed name and the metadata.
pub open spec fn template_left(left: Seq<char>) -> (Seq<char>, TemplateMeta) {
    let parts = split_char(left, '|');
    (trim(parts[0]), meta_fold(parts.drop_first(), true))
}

/// `command|php>=..|php<..`: the trimmed command and the PHP bounds.
pub open spec fn template_source(source: Seq<char>) -> (Seq<char>, Option<Seq<char>>, Option<Seq<char>>) {
    let parts = split_char(source, '|');
    let m = meta_fold(parts.drop_first(), false);
    (trim(parts[0]), m.2, m.3)
}

/// "Laravel-12" gives ("Laravel", "12"); a name without `-` and a version that
/// starts with a digit gives (name, "Padrão").
pub open spec fn template_name_parts(name: Seq<char>) -> (Seq<char>, Seq<char>) {
    match rsplit_once(name, '-') {
        Some((f, v)) => if v.len() > 0 && is_digit(v[0]) {
            (f, v)
        } else {
            (name, "Padrão"@)
        },
        None => (name, "Padrão"@),
    }
}

pub open spec fn or_else(a: Option<Seq<char>>, b: Option<Seq<char>>) -> Option<Seq<char>> {
    if a is Some {
        a
    } else {
        b
    }
}

pub open spec fn unwrap_or(a: Option<Seq<char>>, b: Seq<char>) -> Seq<char> {
    match a {
        Some(x) => x,
        None => b,
    }
}

/// The template that an entry line `left=source` describes.
pub open spec fn template_entry(name: Seq<char>, source: Seq<char>, category: Seq<char>) -> SiteTemplateView {
    let (clean, meta) = template_left(trim(trim_start_char(name, '*')));
    let (src, src_min, src_max) = template_source(trim(source));
    let (fw, ver) = template_name_parts(clean);
    SiteTemplateView {
        name: clean,
        framework: unwrap_or(meta.0, fw),
        version: unwrap_or(meta.1, ver),
        source: src,
        category,
        php_min: or_else(meta.2, src_min),
        php_max: or_else(meta.3, src_max),
        preferred: name.len() > 0 && name[0] == '*',
    }
}

/// The effect of one template catalog line; the entry splits at its last `=`.
pub open spec fn template_catalog_step(
    st: (Seq<char>, Seq<SiteTemplateView>),
    line: Seq<char>,
) -> (Seq<char>, Seq<SiteTemplateView>) {
    let t = trim(line);
    if is_blank_line(t) {
        st
    } else if t[0] == '#' {
        let label = heading_label(t);
        if label.len() > 0 {
            (label, st.1)
        } else {
            st
        }
    } else {
        match rsplit_once(t, '=') {
            None => st,
            Some((name, source)) => (st.0, st.1.push(template_entry(name, source, st.0))),
        }
    }
}

pub open spec fn template_catalog_fold(ls: Seq<Seq<char>>) -> (Seq<char>, Seq<SiteTemplateView>)
    decreases ls.len(),
{
    if ls.len() == 0 {
        ("Sites"@, Seq::empty())
    } else {
        template_catalog_step(template_catalog_fold(ls.drop_last()), ls.last())
    }
}

/// The entries that a template catalog text lists (possibly none).
pub open spec fn template_entries(raw: Seq<char>) -> Seq<SiteTemplateView> {
    template_catalog_fold(lines(raw)).1
}

/// The templates of a catalog; a catalog that lists none gives the built-in catalog.
pub open spec fn template_catalog(raw: Seq<char>) -> Seq<SiteTemplateView> {
    if template_entries(raw).len() == 0 {
        template_entries(default_catalog_text())
    } else {
        template_entries(raw)
    }
}

/// A catalog line that lists no template: blank, the `---` separator, a
/// `#` heading or comment, or a line without `=`.
pub open spec fn lists_nothing(line: Seq<char>) -> bool {
    let t = trim(line);
    is_blank_line(t) || t[0] == '#' || !has_char(t, '=')
}

proof fn lemma_last_index_absent(s: Seq<char>, c: char)
    requires
        !has_char(s, c),
    ensures
        crate::text::last_index(s, c) is None,
    decreases s.len(),
{
    if s.len() > 0 {
        assert(s[s.len() - 1] != c);
        assert(!has_char(s.drop_last(), c)) by {
            if has_char(s.drop_last(), c) {
                let i = choose|i: int| 0 <= i < s.drop_last().len() && s.drop_last()[i] == c;
                assert(s[i] == c);
            }
        }
        lemma_last_index_absent(s.drop_last(), c);
    }
}

proof fn lemma_fold_lists_nothing(ls: Seq<Seq<char>>)
    requires
        forall|i: int| 0 <= i < ls.len() ==> lists_nothing(#[trigger] ls[i]),
    ensures
        template_catalog_fold(ls).1.len() == 0,
    decreases ls.len(),
{
    if ls.len() > 0 {
        assert forall|i: int| 0 <= i < ls.drop_last().len() implies lists_nothing(#[trigger] ls.drop_last()[i]) by {
            assert(ls.drop_last()[i] == ls[i]);
        }
        lemma_fold_lists_nothing(ls.drop_last());
        let t = trim(ls.last());
        assert(lists_nothing(ls[ls.len() - 1]));
        if !is_blank_line(t) && t[0] != '#' {
            lemma_last_index_absent(t, '=');
        }
    }
}

/// A catalog whose lines list no template (blank lines, `---`, headings and
/// comments, lines without `=`) gives the built-in catalog, of fourteen
/// templates.
pub proof fn law_catalog_without_entries_is_builtin(raw: Seq<char>)
    requires
        forall|i: int| 0 <= i < lines(raw).len() ==> lists_nothing(#[trigger] lines(raw)[i]),
    ensures
        template_entries(raw).len() == 0,
        template_catalog(raw) == template_entries(default_catalog_text()),
        template_catalog(raw).len() == 14,
{
    lemma_fold_lists_nothing(lines(raw));
    law_builtin_catalog_lists_fourteen();
}

pub open spec fn default_catalog_text() -> Seq<char> {
    DEFAULT_SITE_TEMPLATES@
}

/// The text of the built-in project template catalog.
pub const DEFAULT_SITE_TEMPLATES: &'static str = "# Sites\nBlank|framework=Blank|version=Padrão|php>=5.6=\nPHP|framework=PHP|version=Padrão|php>=5.6=inline:php\n---\n# Frameworks\nLaravel 12|framework=Laravel|version=12.x|php>=8.2=composer create-project laravel/laravel:^12.0 {name}\nLaravel 11|framework=Laravel|version=11.x|php>=8.2=composer create-project laravel/laravel:^11.0 {name}\nLaravel 10|framework=Laravel|version=10.x|php>=8.1=composer create-project laravel/laravel:^10.0 {name}\nSymfony 7.3|framework=Symfony|version=7.3|php>=8.2=composer create-project symfony/skeleton:^7.3 {name}\nSymfony 6.4 LTS|framework=Symfony|version=6.4 LTS|php>=8.1=composer create-project symfony/skeleton:^6.4 {name}\nCakePHP 5.2|framework=CakePHP|version=5.2|php>=8.1=composer create-project cakephp/app:^5.2 {name}\nCakePHP 5.1|framework=CakePHP|version=5.1|php>=8.1=composer create-project cakephp/app:^5.1 {name}\nCakePHP 5.0|framework=CakePHP|version=5.0|php>=8.1=composer create-project cakephp/app:^5.0 {name}\nCakePHP 4.6|framework=CakePHP|version=4.6|php>=7.4=composer create-project cakephp/app:^4.6 {name}\nCakePHP 4.5|framework=CakePHP|version=4.5|php>=7.4=composer create-project cakephp/app:^4.5 {name}\nCakePHP 3.10|framework=CakePHP|version=3.10|php>=5.6|php<8.0=composer create-project cakephp/app:^3.10 {name}\n---\n# CMS\nWordPress 6.8|framework=WordPress|version=6.8|php>=7.2=https://wordpress.org/latest.zip\n";

/// Splitting a text that ends in a line break after a piece without one:
/// the piece extends the last piece, and an empty piece follows.
proof fn lemma_split_line(prefix: Seq<char>, seg: Seq<char>)
    requires
        !has_char(seg, '\n'),
    ensures
        split_char(prefix + seg + seq!['\n'], '\n') == split_char(prefix, '\n').update(
            split_char(prefix, '\n').len() - 1,
            split_char(prefix, '\n').last() + seg,
        ).push(Seq::<char>::empty()),
{
    crate::text::lemma_split_char_append(prefix, seg, '\n');
    let t = prefix + seg + seq!['\n'];
    assert(t.drop_last() =~= prefix + seg);
}

/// A text that holds the character has a last place of it.
proof fn lemma_last_index_present(s: Seq<char>, c: char, k: int)
    requires
        0 <= k < s.len(),
        s[k] == c,
    ensures
        crate::text::last_index(s, c) is Some,
    decreases s.len(),
{
    if s.last() != c {
        assert(k < s.len() - 1);
        assert(s.drop_last()[k] == s[k]);
        lemma_last_index_present(s.drop_last(), c, k);
    }
}

/// The built-in catalog lists fourteen templates.
#[verifier::spinoff_prover]
#[verifier::rlimit(100)]
pub proof fn law_builtin_catalog_lists_fourteen()
    ensures
        template_entries(default_catalog_text()).len() == 14,
{
    // The text of `DEFAULT_SITE_TEMPLATES`, which `reveal_strlit` takes as a literal.
    reveal_strlit("# Sites\nBlank|framework=Blank|version=Padrão|php>=5.6=\nPHP|framework=PHP|version=Padrão|php>=5.6=inline:php\n---\n# Frameworks\nLaravel 12|framework=Laravel|version=12.x|php>=8.2=composer create-project laravel/laravel:^12.0 {name}\nLaravel 11|framework=Laravel|version=11.x|php>=8.2=composer create-project laravel/laravel:^11.0 {name}\nLaravel 10|framework=Laravel|version=10.x|php>=8.1=composer create-project laravel/laravel:^10.0 {name}\nSymfony 7.3|framework=Symfony|version=7.3|php>=8.2=composer create-project symfony/skeleton:^7.3 {name}\nSymfony 6.4 LTS|framework=Symfony|version=6.4 LTS|php>=8.1=composer create-project symfony/skeleton:^6.4 {name}\nCakePHP 5.2|framework=CakePHP|version=5.2|php>=8.1=composer create-project cakephp/app:^5.2 {name}\nCakePHP 5.1|framework=CakePHP|version=5.1|php>=8.1=composer create-project cakephp/app:^5.1 {name}\nCakePHP 5.0|framework=CakePHP|version=5.0|php>=8.1=composer create-project cakephp/app:^5.0 {name}\nCakePHP 4.6|framework=CakePHP|version=4.6|php>=7.4=composer create-project cakephp/app:^4.6 {name}\nCakePHP 4.5|framework=CakePHP|version=4.5|php>=7.4=composer create-project cakephp/app:^4.5 {name}\nCakePHP 3.10|framework=CakePHP|version=3.10|php>=5.6|php<8.0=composer create-project cakephp/app:^3.10 {name}\n---\n# CMS\nWordPress 6.8|framework=WordPress|version=6.8|php>=7.2=https://wordpress.org/latest.zip\n");
    reveal_strlit("---");
    let t = default_catalog_text();
    assert(t.len() == 1356);
    let empty = Seq::<char>::empty();
    assert(split_char(empty, '\n') =~= seq![empty]);
    let mut acc: Seq<Seq<char>> = Seq::empty();
    let seg0 = t.subrange(0, 7);
    assert forall|k: int| 0 <= k < 7 implies seg0[k] != '\n' by {
        assert(seg0[k] == t[0 + k]);
    }
    assert(t[7] == '\n');
    lemma_split_line(t.take(0), seg0);
    assert(t.take(0) + seg0 + seq!['\n'] =~= t.take(8));
    assert(split_char(t.take(0), '\n') == acc.push(empty));
    assert(acc.push(empty).update(acc.len() as int, empty + seg0) =~= acc.push(seg0));
    acc = acc.push(seg0);
    assert(split_char(t.take(8), '\n') == acc.push(empty));
    let seg1 = t.subrange(8, 54);
    assert forall|k: int| 0 <= k < 46 implies seg1[k] != '\n' by {
        assert(seg1[k] == t[8 + k]);
    }
    assert(t[54] == '\n');
    lemma_split_line(t.take(8), seg1);
    assert(t.take(8) + seg1 + seq!['\n'] =~= t.take(55));
    assert(split_char(t.take(8), '\n') == acc.push(empty));
    assert(acc.push(empty).update(acc.len() as int, empty + seg1) =~= acc.push(seg1));
    acc = acc.push(seg1);
    assert(split_char(t.take(55), '\n') == acc.push(empty));
    let seg2 = t.subrange(55, 107);
    assert forall|k: int| 0 <= k < 52 implies seg2[k] != '\n' by {
        assert(seg2[k] == t[55 + k]);
    }
    assert(t[107] == '\n');
    lemma_split_line(t.take(55), seg2);
    assert(t.take(55) + seg2 + seq!['\n'] =~= t.take(108));
    assert(split_char(t.take(55), '\n') == acc.push(empty));
    assert(acc.push(empty).update(acc.len() as int, empty + seg2) =~= acc.push(seg2));
    acc = acc.push(seg2);
    assert(split_char(t.take(108), '\n') == acc.push(empty));
    let seg3 = t.subrange(108, 111);
    assert forall|k: int| 0 <= k < 3 implies seg3[k] != '\n' by {
        assert(seg3[k] == t[108 + k]);
    }
    assert(t[111] == '\n');
    lemma_split_line(t.take(108), seg3);
    assert(t.take(108) + seg3 + seq!['\n'] =~= t.take(112));
    assert(split_char(t.take(108), '\n') == acc.push(empty));
    assert(acc.push(empty).update(acc.len() as int, empty + seg3) =~= acc.push(seg3));
    acc = acc.push(seg3);
    assert(split_char(t.take(112), '\n') == acc.push(empty));
    let seg4 = t.subrange(112, 124);
    assert forall|k: int| 0 <= k < 12 implies seg4[k] != '\n' by {
        assert(seg4[k] == t[112 + k]);
    }
    assert(t[124] == '\n');
    lemma_split_line(t.take(112), seg4);
    assert(t.take(112) + seg4 + seq!['\n'] =~= t.take(125));
    assert(split_char(t.take(112), '\n') == acc.push(empty));
    assert(acc.push(empty).update(acc.len() as int, empty + seg4) =~= acc.push(seg4));
    acc = acc.push(seg4);
    assert(split_char(t.take(125), '\n') == acc.push(empty));
    let seg5 = t.subrange(125, 228);
    assert forall|k: int| 0 <= k < 103 implies seg5[k] != '\n' by {
        assert(seg5[k] == t[125 + k]);
    }
    assert(t[228] == '\n');
    lemma_split_line(t.take(125), seg5);
    assert(t.take(125) + seg5 + seq!['\n'] =~= t.take(229));
    assert(split_char(t.take(125), '\n') == acc.push(empty));
    assert(acc.push(empty).update(acc.len() as int, empty + seg5) =~= acc.push(seg5));
    acc = acc.push(seg5);
    assert(split_char(t.take(229), '\n') == acc.push(empty));
    let seg6 = t.subrange(229, 332);
    assert forall|k: int| 0 <= k < 103 implies seg6[k] != '\n' by {
        assert(seg6[k] == t[229 + k]);
    }
    assert(t[332] == '\n');
    lemma_split_line(t.take(229), seg6);
    assert(t.take(229) + seg6 + seq!['\n'] =~= t.take(333));
    assert(split_char(t.take(229), '\n') == acc.push(empty));
    assert(acc.push(empty).update(acc.len() as int, empty + seg6) =~= acc.push(seg6));
    acc = acc.push(seg6);
    assert(split_char(t.take(333), '\n') == acc.push(empty));
    let seg7 = t.subrange(333, 436);
    assert forall|k: int| 0 <= k < 103 implies seg7[k] != '\n' by {
        assert(seg7[k] == t[333 + k]);
    }
    assert(t[436] == '\n');
    lemma_split_line(t.take(333), seg7);
    assert(t.take(333) + seg7 + seq!['\n'] =~= t.take(437));
    assert(split_char(t.take(333), '\n') == acc.push(empty));
    assert(acc.push(empty).update(acc.len() as int, empty + seg7) =~= acc.push(seg7));
    acc = acc.push(seg7);
    assert(split_char(t.take(437), '\n') == acc.push(empty));
    let seg8 = t.subrange(437, 540);
    assert forall|k: int| 0 <= k < 103 implies seg8[k] != '\n' by {
        assert(seg8[k] == t[437 + k]);
    }
    assert(t[540] == '\n');
    lemma_split_line(t.take(437), seg8);
    assert(t.take(437) + seg8 + seq!['\n'] =~= t.take(541));
    assert(split_char(t.take(437), '\n') == acc.push(empty));
    assert(acc.push(empty).update(acc.len() as int, empty + seg8) =~= acc.push(seg8));
    acc = acc.push(seg8);
    assert(split_char(t.take(541), '\n') == acc.push(empty));
    let seg9 = t.subrange(541, 652);
    assert forall|k: int| 0 <= k < 111 implies seg9[k] != '\n' by {
        assert(seg9[k] == t[541 + k]);
    }
    assert(t[652] == '\n');
    lemma_split_line(t.take(541), seg9);
    assert(t.take(541) + seg9 + seq!['\n'] =~= t.take(653));
    assert(split_char(t.take(541), '\n') == acc.push(empty));
    assert(acc.push(empty).update(acc.len() as int, empty + seg9) =~= acc.push(seg9));
    acc = acc.push(seg9);
    assert(split_char(t.take(653), '\n') == acc.push(empty));
    let seg10 = t.subrange(653, 751);
    assert forall|k: int| 0 <= k < 98 implies seg10[k] != '\n' by {
        assert(seg10[k] == t[653 + k]);
    }
    assert(t[751] == '\n');
    lemma_split_line(t.take(653), seg10);
    assert(t.take(653) + seg10 + seq!['\n'] =~= t.take(752));
    assert(split_char(t.take(653), '\n') == acc.push(empty));
    assert(acc.push(empty).update(acc.len() as int, empty + seg10) =~= acc.push(seg10));
    acc = acc.push(seg10);
    assert(split_char(t.take(752), '\n') == acc.push(empty));
    let seg11 = t.subrange(752, 850);
    assert forall|k: int| 0 <= k < 98 implies seg11[k] != '\n' by {
        assert(seg11[k] == t[752 + k]);
    }
    assert(t[850] == '\n');
    lemma_split_line(t.take(752), seg11);
    assert(t.take(752) + seg11 + seq!['\n'] =~= t.take(851));
    assert(split_char(t.take(752), '\n') == acc.push(empty));
    assert(acc.push(empty).update(acc.len() as int, empty + seg11) =~= acc.push(seg11));
    acc = acc.push(seg11);
    assert(split_char(t.take(851), '\n') == acc.push(empty));
    let seg12 = t.subrange(851, 949);
    assert forall|k: int| 0 <= k < 98 implies seg12[k] != '\n' by {
        assert(seg12[k] == t[851 + k]);
    }
    assert(t[949] == '\n');
    lemma_split_line(t.take(851), seg12);
    assert(t.take(851) + seg12 + seq!['\n'] =~= t.take(950));
    assert(split_char(t.take(851), '\n') == acc.push(empty));
    assert(acc.push(empty).update(acc.len() as int, empty + seg12) =~= acc.push(seg12));
    acc = acc.push(seg12);
    assert(split_char(t.take(950), '\n') == acc.push(empty));
    let seg13 = t.subrange(950, 1048);
    assert forall|k: int| 0 <= k < 98 implies seg13[k] != '\n' by {
        assert(seg13[k] == t[950 + k]);
    }
    assert(t[1048] == '\n');
    lemma_split_line(t.take(950), seg13);
    assert(t.take(950) + seg13 + seq!['\n'] =~= t.take(1049));
    assert(split_char(t.take(950), '\n') == acc.push(empty));
    assert(acc.push(empty).update(acc.len() as int, empty + seg13) =~= acc.push(seg13));
    acc = acc.push(seg13);
    assert(split_char(t.take(1049), '\n') == acc.push(empty));
    let seg14 = t.subrange(1049, 1147);
    assert forall|k: int| 0 <= k < 98 implies seg14[k] != '\n' by {
        assert(seg14[k] == t[1049 + k]);
    }
    assert(t[1147] == '\n');
    lemma_split_line(t.take(1049), seg14);
    assert(t.take(1049) + seg14 + seq!['\n'] =~= t.take(1148));
    assert(split_char(t.take(1049), '\n') == acc.push(empty));
    assert(acc.push(empty).update(acc.len() as int, empty + seg14) =~= acc.push(seg14));
    acc = acc.push(seg14);
    assert(split_char(t.take(1148), '\n') == acc.push(empty));
    let seg15 = t.subrange(1148, 1257);
    assert forall|k: int| 0 <= k < 109 implies seg15[k] != '\n' by {
        assert(seg15[k] == t[1148 + k]);
    }
    assert(t[1257] == '\n');
    lemma_split_line(t.take(1148), seg15);
    assert(t.take(1148) + seg15 + seq!['\n'] =~= t.take(1258));
    assert(split_char(t.take(1148), '\n') == acc.push(empty));
    assert(acc.push(empty).update(acc.len() as int, empty + seg15) =~= acc.push(seg15));
    acc = acc.push(seg15);
    assert(split_char(t.take(1258), '\n') == acc.push(empty));
    let seg16 = t.subrange(1258, 1261);
    assert forall|k: int| 0 <= k < 3 implies seg16[k] != '\n' by {
        assert(seg16[k] == t[1258 + k]);
    }
    assert(t[1261] == '\n');
    lemma_split_line(t.take(1258), seg16);
    assert(t.take(1258) + seg16 + seq!['\n'] =~= t.take(1262));
    assert(split_char(t.take(1258), '\n') == acc.push(empty));
    assert(acc.push(empty).update(acc.len() as int, empty + seg16) =~= acc.push(seg16));
    acc = acc.push(seg16);
    assert(split_char(t.take(1262), '\n') == acc.push(empty));
    let seg17 = t.subrange(1262, 1267);
    assert forall|k: int| 0 <= k < 5 implies seg17[k] != '\n' by {
        assert(seg17[k] == t[1262 + k]);
    }
    assert(t[1267] == '\n');
    lemma_split_line(t.take(1262), seg17);
    assert(t.take(1262) + seg17 + seq!['\n'] =~= t.take(1268));
    assert(split_char(t.take(1262), '\n') == acc.push(empty));
    assert(acc.push(empty).update(acc.len() as int, empty + seg17) =~= acc.push(seg17));
    acc = acc.push(seg17);
    assert(split_char(t.take(1268), '\n') == acc.push(empty));
    let seg18 = t.subrange(1268, 1355);
    assert forall|k: int| 0 <= k < 87 implies seg18[k] != '\n' by {
        assert(seg18[k] == t[1268 + k]);
    }
    assert(t[1355] == '\n');
    lemma_split_line(t.take(1268), seg18);
    assert(t.take(1268) + seg18 + seq!['\n'] =~= t.take(1356));
    assert(split_char(t.take(1268), '\n') == acc.push(empty));
    assert(acc.push(empty).update(acc.len() as int, empty + seg18) =~= acc.push(seg18));
    acc = acc.push(seg18);
    assert(split_char(t.take(1356), '\n') == acc.push(empty));
    assert(t.take(1356) =~= t);
    let ls = lines(t);
    assert(ls.len() == 19);
    assert(ls[0] == crate::text::strip_cr(acc[0]));
    assert(acc[0] == seg0);
    assert(seg0[6] == t[6] && t[6] == 's');
    assert(seg0[0] == t[0] && t[0] == '#');
    assert(ls[0] == seg0);
    crate::text::lemma_trim_of_clean(seg0);
    assert(ls[1] == crate::text::strip_cr(acc[1]));
    assert(acc[1] == seg1);
    assert(seg1[45] == t[53] && t[53] == '=');
    assert(seg1[0] == t[8] && t[8] == 'B');
    assert(ls[1] == seg1);
    crate::text::lemma_trim_of_clean(seg1);
    assert(ls[2] == crate::text::strip_cr(acc[2]));
    assert(acc[2] == seg2);
    assert(seg2[51] == t[106] && t[106] == 'p');
    assert(seg2[0] == t[55] && t[55] == 'P');
    assert(ls[2] == seg2);
    crate::text::lemma_trim_of_clean(seg2);
    assert(ls[3] == crate::text::strip_cr(acc[3]));
    assert(acc[3] == seg3);
    assert(seg3[2] == t[110] && t[110] == '-');
    assert(seg3[0] == t[108] && t[108] == '-');
    assert(ls[3] == seg3);
    crate::text::lemma_trim_of_clean(seg3);
    assert(ls[4] == crate::text::strip_cr(acc[4]));
    assert(acc[4] == seg4);
    assert(seg4[11] == t[123] && t[123] == 's');
    assert(seg4[0] == t[112] && t[112] == '#');
    assert(ls[4] == seg4);
    crate::text::lemma_trim_of_clean(seg4);
    assert(ls[5] == crate::text::strip_cr(acc[5]));
    assert(acc[5] == seg5);
    assert(seg5[102] == t[227] && t[227] == '}');
    assert(seg5[0] == t[125] && t[125] == 'L');
    assert(ls[5] == seg5);
    crate::text::lemma_trim_of_clean(seg5);
    assert(ls[6] == crate::text::strip_cr(acc[6]));
    assert(acc[6] == seg6);
    assert(seg6[102] == t[331] && t[331] == '}');
    assert(seg6[0] == t[229] && t[229] == 'L');
    assert(ls[6] == seg6);
    crate::text::lemma_trim_of_clean(seg6);
    assert(ls[7] == crate::text::strip_cr(acc[7]));
    assert(acc[7] == seg7);
    assert(seg7[102] == t[435] && t[435] == '}');
    assert(seg7[0] == t[333] && t[333] == 'L');
    assert(ls[7] == seg7);
    crate::text::lemma_trim_of_clean(seg7);
    assert(ls[8] == crate::text::strip_cr(acc[8]));
    assert(acc[8] == seg8);
    assert(seg8[102] == t[539] && t[539] == '}');
    assert(seg8[0] == t[437] && t[437] == 'S');
    assert(ls[8] == seg8);
    crate::text::lemma_trim_of_clean(seg8);
    assert(ls[9] == crate::text::strip_cr(acc[9]));
    assert(acc[9] == seg9);
    assert(seg9[110] == t[651] && t[651] == '}');
    assert(seg9[0] == t[541] && t[541] == 'S');
    assert(ls[9] == seg9);
    crate::text::lemma_trim_of_clean(seg9);
    assert(ls[10] == crate::text::strip_cr(acc[10]));
    assert(acc[10] == seg10);
    assert(seg10[97] == t[750] && t[750] == '}');
    assert(seg10[0] == t[653] && t[653] == 'C');
    assert(ls[10] == seg10);
    crate::text::lemma_trim_of_clean(seg10);
    assert(ls[11] == crate::text::strip_cr(acc[11]));
    assert(acc[11] == seg11);
    assert(seg11[97] == t[849] && t[849] == '}');
    assert(seg11[0] == t[752] && t[752] == 'C');
    assert(ls[11] == seg11);
    crate::text::lemma_trim_of_clean(seg11);
    assert(ls[12] == crate::text::strip_cr(acc[12]));
    assert(acc[12] == seg12);
    assert(seg12[97] == t[948] && t[948] == '}');
    assert(seg12[0] == t[851] && t[851] == 'C');
    assert(ls[12] == seg12);
    crate::text::lemma_trim_of_clean(seg12);
    assert(ls[13] == crate::text::strip_cr(acc[13]));
    assert(acc[13] == seg13);
    assert(seg13[97] == t[1047] && t[1047] == '}');
    assert(seg13[0] == t[950] && t[950] == 'C');
    assert(ls[13] == seg13);
    crate::text::lemma_trim_of_clean(seg13);
    assert(ls[14] == crate::text::strip_cr(acc[14]));
    assert(acc[14] == seg14);
    assert(seg14[97] == t[1146] && t[1146] == '}');
    assert(seg14[0] == t[1049] && t[1049] == 'C');
    assert(ls[14] == seg14);
    crate::text::lemma_trim_of_clean(seg14);
    assert(ls[15] == crate::text::strip_cr(acc[15]));
    assert(acc[15] == seg15);
    assert(seg15[108] == t[1256] && t[1256] == '}');
    assert(seg15[0] == t[1148] && t[1148] == 'C');
    assert(ls[15] == seg15);
    crate::text::lemma_trim_of_clean(seg15);
    assert(ls[16] == crate::text::strip_cr(acc[16]));
    assert(acc[16] == seg16);
    assert(seg16[2] == t[1260] && t[1260] == '-');
    assert(seg16[0] == t[1258] && t[1258] == '-');
    assert(ls[16] == seg16);
    crate::text::lemma_trim_of_clean(seg16);
    assert(ls[17] == crate::text::strip_cr(acc[17]));
    assert(acc[17] == seg17);
    assert(seg17[4] == t[1266] && t[1266] == 'S');
    assert(seg17[0] == t[1262] && t[1262] == '#');
    assert(ls[17] == seg17);
    crate::text::lemma_trim_of_clean(seg17);
    assert(ls[18] == crate::text::strip_cr(acc[18]));
    assert(acc[18] == seg18);
    assert(seg18[86] == t[1354] && t[1354] == 'p');
    assert(seg18[0] == t[1268] && t[1268] == 'W');
    assert(ls[18] == seg18);
    crate::text::lemma_trim_of_clean(seg18);
    let f0 = template_catalog_fold(ls.take(0));
    assert(ls.take(0) =~= Seq::<Seq<char>>::empty());
    assert(f0.1.len() == 0);
    assert(ls.take(1).drop_last() =~= ls.take(0));
    assert(ls.take(1).last() == seg0);
    assert(seg0.len() != 3 || seg0[0] != '-');
    assert(template_catalog_fold(ls.take(1)).1 == template_catalog_fold(ls.take(0)).1);
    assert(ls.take(2).drop_last() =~= ls.take(1));
    assert(ls.take(2).last() == seg1);
    assert(seg1[0] != '-');
    assert(seg1[15] == t[23] && t[23] == '=');
    lemma_last_index_present(seg1, '=', 15);
    assert(template_catalog_fold(ls.take(2)).1.len() == template_catalog_fold(ls.take(1)).1.len() + 1);
    assert(ls.take(3).drop_last() =~= ls.take(2));
    assert(ls.take(3).last() == seg2);
    assert(seg2[0] != '-');
    assert(seg2[13] == t[68] && t[68] == '=');
    lemma_last_index_present(seg2, '=', 13);
    assert(template_catalog_fold(ls.take(3)).1.len() == template_catalog_fold(ls.take(2)).1.len() + 1);
    assert(ls.take(4).drop_last() =~= ls.take(3));
    assert(ls.take(4).last() == seg3);
    assert(seg3 =~= "---"@) by {
        assert(seg3[1] == t[109]);
    }
    assert(template_catalog_fold(ls.take(4)).1 == template_catalog_fold(ls.take(3)).1);
    assert(ls.take(5).drop_last() =~= ls.take(4));
    assert(ls.take(5).last() == seg4);
    assert(seg4.len() != 3 || seg4[0] != '-');
    assert(template_catalog_fold(ls.take(5)).1 == template_catalog_fold(ls.take(4)).1);
    assert(ls.take(6).drop_last() =~= ls.take(5));
    assert(ls.take(6).last() == seg5);
    assert(seg5[0] != '-');
    assert(seg5[20] == t[145] && t[145] == '=');
    lemma_last_index_present(seg5, '=', 20);
    assert(template_catalog_fold(ls.take(6)).1.len() == template_catalog_fold(ls.take(5)).1.len() + 1);
    assert(ls.take(7).drop_last() =~= ls.take(6));
    assert(ls.take(7).last() == seg6);
    assert(seg6[0] != '-');
    assert(seg6[20] == t[249] && t[249] == '=');
    lemma_last_index_present(seg6, '=', 20);
    assert(template_catalog_fold(ls.take(7)).1.len() == template_catalog_fold(ls.take(6)).1.len() + 1);
    assert(ls.take(8).drop_last() =~= ls.take(7));
    assert(ls.take(8).last() == seg7);
    assert(seg7[0] != '-');
    assert(seg7[20] == t[353] && t[353] == '=');
    lemma_last_index_present(seg7, '=', 20);
    assert(template_catalog_fold(ls.take(8)).1.len() == template_catalog_fold(ls.take(7)).1.len() + 1);
    assert(ls.take(9).drop_last() =~= ls.take(8));
    assert(ls.take(9).last() == seg8);
    assert(seg8[0] != '-');
    assert(seg8[21] == t[458] && t[458] == '=');
    lemma_last_index_present(seg8, '=', 21);
    assert(template_catalog_fold(ls.take(9)).1.len() == template_catalog_fold(ls.take(8)).1.len() + 1);
    assert(ls.take(10).drop_last() =~= ls.take(9));
    assert(ls.take(10).last() == seg9);
    assert(seg9[0] != '-');
    assert(seg9[25] == t[566] && t[566] == '=');
    lemma_last_index_present(seg9, '=', 25);
    assert(template_catalog_fold(ls.take(10)).1.len() == template_catalog_fold(ls.take(9)).1.len() + 1);
    assert(ls.take(11).drop_last() =~= ls.take(10));
    assert(ls.take(11).last() == seg10);
    assert(seg10[0] != '-');
    assert(seg10[21] == t[674] && t[674] == '=');
    lemma_last_index_present(seg10, '=', 21);
    assert(template_catalog_fold(ls.take(11)).1.len() == template_catalog_fold(ls.take(10)).1.len() + 1);
    assert(ls.take(12).drop_last() =~= ls.take(11));
    assert(ls.take(12).last() == seg11);
    assert(seg11[0] != '-');
    assert(seg11[21] == t[773] && t[773] == '=');
    lemma_last_index_present(seg11, '=', 21);
    assert(template_catalog_fold(ls.take(12)).1.len() == template_catalog_fold(ls.take(11)).1.len() + 1);
    assert(ls.take(13).drop_last() =~= ls.take(12));
    assert(ls.take(13).last() == seg12);
    assert(seg12[0] != '-');
    assert(seg12[21] == t[872] && t[872] == '=');
    lemma_last_index_present(seg12, '=', 21);
    assert(template_catalog_fold(ls.take(13)).1.len() == template_catalog_fold(ls.take(12)).1.len() + 1);
    assert(ls.take(14).drop_last() =~= ls.take(13));
    assert(ls.take(14).last() == seg13);
    assert(seg13[0] != '-');
    assert(seg13[21] == t[971] && t[971] == '=');
    lemma_last_index_present(seg13, '=', 21);
    assert(template_catalog_fold(ls.take(14)).1.len() == template_catalog_fold(ls.take(13)).1.len() + 1);
    assert(ls.take(15).drop_last() =~= ls.take(14));
    assert(ls.take(15).last() == seg14);
    assert(seg14[0] != '-');
    assert(seg14[21] == t[1070] && t[1070] == '=');
    lemma_last_index_present(seg14, '=', 21);
    assert(template_catalog_fold(ls.take(15)).1.len() == template_catalog_fold(ls.take(14)).1.len() + 1);
    assert(ls.take(16).drop_last() =~= ls.take(15));
    assert(ls.take(16).last() == seg15);
    assert(seg15[0] != '-');
    assert(seg15[22] == t[1170] && t[1170] == '=');
    lemma_last_index_present(seg15, '=', 22);
    assert(template_catalog_fold(ls.take(16)).1.len() == template_catalog_fold(ls.take(15)).1.len() + 1);
    assert(ls.take(17).drop_last() =~= ls.take(16));
    assert(ls.take(17).last() == seg16);
    assert(seg16 =~= "---"@) by {
        assert(seg16[1] == t[1259]);
    }
    assert(template_catalog_fold(ls.take(17)).1 == template_catalog_fold(ls.take(16)).1);
    assert(ls.take(18).drop_last() =~= ls.take(17));
    assert(ls.take(18).last() == seg17);
    assert(seg17.len() != 3 || seg17[0] != '-');
    assert(template_catalog_fold(ls.take(18)).1 == template_catalog_fold(ls.take(17)).1);
    assert(ls.take(19).drop_last() =~= ls.take(18));
    assert(ls.take(19).last() == seg18);
    assert(seg18[0] != '-');
    assert(seg18[23] == t[1291] && t[1291] == '=');
    lemma_last_index_present(seg18, '=', 23);
    assert(template_catalog_fold(ls.take(19)).1.len() == template_catalog_fold(ls.take(18)).1.len() + 1);
    assert(ls.take(19) =~= ls);
}

/// The templates of a catalog are never none: a catalog that lists none
/// gives the built-in one, which lists some.
pub proof fn law_template_catalog_never_empty(raw: Seq<char>)
    ensures
        template_catalog(raw).len() > 0,
{
    law_builtin_catalog_lists_fourteen();
}

/// The built-in project template catalog.
pub fn default_site_template_catalog() -> (r: &'static str)
    ensures
        r@ == default_catalog_text(),
{
    DEFAULT_SITE_TEMPLATES
}

fn after_key_exec(t: &Vec<char>, key: &str) -> (r: Option<Vec<char>>)
    ensures
        opt_vec_view(r) == after_key(t@, key@),
{
    let k = chars_of(key);
    if starts_with_str(t, key) {
        let rest = slice_of(t, k.len(), t.len());
        assert(rest@ == t@.skip(key@.len() as int));
        Some(trim_vec(&rest))
    } else {
        None
    }
}

/// Folds the metadata pieces `parts[1..]`.
fn meta_fold_exec(parts: &Vec<Vec<char>>, with_names: bool) -> (r: (
    Option<Vec<char>>,
    Option<Vec<char>>,
    Option<Vec<char>>,
    Option<Vec<char>>,
))
    requires
        parts.len() >= 1,
    ensures
        (opt_vec_view(r.0), opt_vec_view(r.1), opt_vec_view(r.2), opt_vec_view(r.3)) == meta_fold(
            texts(parts@).drop_first(),
            with_names,
        ),
{
    let mut framework: Option<Vec<char>> = None;
    let mut version: Option<Vec<char>> = None;
    let mut php_min: Option<Vec<char>> = None;
    let mut php_max: Option<Vec<char>> = None;
    let mut i: usize = 1;
    while i < parts.len()
        invariant
            1 <= i <= parts.len(),
            (opt_vec_view(framework), opt_vec_view(version), opt_vec_view(php_min), opt_vec_view(
                php_max,
            )) == meta_fold(texts(parts@).drop_first().take(i - 1), with_names),
        decreases parts.len() - i,
    {
        let ghost pv = texts(parts@).drop_first();
        assert(pv.take(i as int).drop_last() =~= pv.take(i - 1));
        assert(pv.take(i as int).last() == parts@[i as int]@);
        let t = trim_vec(&parts[i]);
        let fw = if with_names { after_key_exec(&t, "framework=") } else { None };
        if fw.is_some() {
            framework = fw;
        } else {
            let ve = if with_names { after_key_exec(&t, "version=") } else { None };
            if ve.is_some() {
                version = ve;
            } else {
                let mn = after_key_exec(&t, "php>=");
                if mn.is_some() {
                    php_min = mn;
                } else {
                    let mx = after_key_exec(&t, "php<=");
                    if mx.is_some() {
                        php_max = mx;
                    } else {
                        let lt = after_key_exec(&t, "php<");
                        if lt.is_some() {
                            php_max = lt;
                        }
                    }
                }
            }
        }
        i += 1;
    }
    assert(texts(parts@).drop_first().take(parts.len() - 1) =~= texts(parts@).drop_first());
    (framework, version, php_min, php_max)
}

fn opt_string(o: Option<Vec<char>>) -> (r: Option<String>)
    ensures
        opt_view(r) == opt_vec_view(o),
{
    match o {
        Some(v) => Some(string_of(&v)),
        None => None,
    }
}

/// Splits the part of a template line before its last `=`: the name, then
/// `framework=`, `version=`, `php>=` and `php<=`/`php<` pieces separated by `|`.
pub fn parse_site_template_left(left: &str) -> (r: (
    String,
    Option<String>,
    Option<String>,
    Option<String>,
    Option<String>,
))
    ensures
        (r.0@, (opt_view(r.1), opt_view(r.2), opt_view(r.3), opt_view(r.4))) == template_left(left@),
{
    let v = chars_of(left);
    let parts = split_char_vec(&v, '|');
    proof {
        crate::text::lemma_split_char_len(v@, '|');
    }
    let name = trim_vec(&parts[0]);
    let m = meta_fold_exec(&parts, true);
    (string_of(&name), opt_string(m.0), opt_string(m.1), opt_string(m.2), opt_string(m.3))
}

/// Splits the part of a template line after its last `=`: the command (or
/// URL), then optional `php>=` and `php<=`/`php<` pieces separated by `|`.
pub fn split_template_source(source: &str) -> (r: (String, Option<String>, Option<String>))
    ensures
        (r.0@, opt_view(r.1), opt_view(r.2)) == template_source(source@),
{
    let v = chars_of(source);
    let parts = split_char_vec(&v, '|');
    proof {
        crate::text::lemma_split_char_len(v@, '|');
    }
    let command = trim_vec(&parts[0]);
    let m = meta_fold_exec(&parts, false);
    (string_of(&command), opt_string(m.2), opt_string(m.3))
}

/// Framework and version from a name such as "Laravel-12"; without a
/// `-` followed by a digit the version is "Padrão".
pub fn split_template_name(name: &str) -> (r: (String, String))
    ensures
        (r.0@, r.1@) == template_name_parts(name@),
{
    let v = chars_of(name);
    match rsplit_once_vec(&v, '-') {
        Some((f, ver)) => {
            if ver.len() > 0 && is_digit_char(ver[0]) {
                return (string_of(&f), string_of(&ver));
            }
        },
        None => {},
    }
    (name.to_owned(), "Padrão".to_owned())
}


fn pick(a: Option<String>, b: String) -> (r: String)
    ensures
        r@ == unwrap_or(opt_view(a), b@),
{
    match a {
        Some(x) => x,
        None => b,
    }
}

fn pick_opt(a: Option<String>, b: Option<String>) -> (r: Option<String>)
    ensures
        opt_view(r) == or_else(opt_view(a), opt_view(b)),
{
    match a {
        Some(x) => Some(x),
        None => b,
    }
}

fn template_entry_exec(name: &Vec<char>, source: &Vec<char>, category: &Vec<char>) -> (r: SiteTemplate)
    ensures
        r@ == template_entry(name@, source@, category@),
{
    let preferred = name.len() > 0 && name[0] == '*';
    let cleaned = trim_start_char_vec(name, '*');
    let cleaned = trim_vec(&cleaned);
    let cleaned_s = string_of(&cleaned);
    let (clean, fw, ver, php_min, php_max) = parse_site_template_left(cleaned_s.as_str());
    let src_t = trim_vec(source);
    let src_s = string_of(&src_t);
    let (src, src_min, src_max) = split_template_source(src_s.as_str());
    let (fw_fb, ver_fb) = split_template_name(clean.as_str());
    SiteTemplate {
        name: clean,
        framework: pick(fw, fw_fb),
        version: pick(ver, ver_fb),
        source: src,
        category: string_of(category),
        php_min: pick_opt(php_min, src_min),
        php_max: pick_opt(php_max, src_max),
        preferred,
    }
}

fn template_entries_exec(raw: &str) -> (r: Vec<SiteTemplate>)
    ensures
        template_views(r@) == template_entries(raw@),
{
    let ls = lines_str(raw);
    let mut category = chars_of("Sites");
    let mut entries: Vec<SiteTemplate> = Vec::new();
    let mut i: usize = 0;
    while i < ls.len()
        invariant
            i <= ls.len(),
            texts(ls@) == lines(raw@),
            (category@, template_views(entries@)) == template_catalog_fold(texts(ls@).take(i as int)),
        decreases ls.len() - i,
    {
        let ghost st = (category@, template_views(entries@));
        assert(texts(ls@).take(i + 1).drop_last() =~= texts(ls@).take(i as int));
        assert(texts(ls@).take(i + 1).last() == ls@[i as int]@);
        let t = trim_vec(&ls[i]);
        if is_blank_line_exec(&t) {
        } else if t[0] == '#' {
            let label = heading_label_exec(&t);
            if label.len() > 0 {
                category = label;
            }
        } else {
            match rsplit_once_vec(&t, '=') {
                None => {},
                Some((name, source)) => {
                    let entry = template_entry_exec(&name, &source, &category);
                    entries.push(entry);
                    assert(template_views(entries@) =~= st.1.push(entry@));
                },
            }
        }
        i += 1;
    }
    assert(texts(ls@).take(ls.len() as int) =~= texts(ls@));
    entries
}

/// Parses a project template catalog: `# Category` headings, entries
/// `name|meta..=source|php>=..` split at the last `=`, blank lines and `---`
/// ignored; when the text lists no template, the built-in catalog is used.
pub fn parse_site_template_catalog(raw: &str) -> (r: Vec<SiteTemplate>)
    ensures
        template_views(r@) == template_catalog(raw@),
{
    let entries = template_entries_exec(raw);
    if entries.len() == 0 {
        template_entries_exec(default_site_template_catalog())
    } else {
        entries
    }
}

} // verus!
