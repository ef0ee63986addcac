use vstd::prelude::*;
use vstd::string::StringExecFns;

verus! {

/// Where a finished batch writes its results: a fresh file, or the standard
/// input of an external histogram-drawing process.
pub enum MontecarloConfig {
    SaveToFile { filename: String },
    PassToPython { xlim_left: i8, xlim_right: i8, fig_filename: &'static str },
}

/// The given lines, each terminated by a newline.
pub open spec fn unlines(ls: Seq<Seq<char>>) -> Seq<char>
    decreases ls.len(),
{
    if ls.len() == 0 {
        Seq::empty()
    } else {
        ls[0] + seq!['\n'] + unlines(ls.drop_first())
    }
}

/// The header line that opens a scenario's section.
pub open spec fn header_line(label: Seq<char>) -> Seq<char> {
    seq!['#', ' '] + label
}

/// The full text of one scenario's section: its header line, then one value
/// per line, every line newline-terminated.
pub open spec fn section_text(label: Seq<char>, values: Seq<Seq<char>>) -> Seq<char> {
    unlines(seq![header_line(label)] + values)
}

/// Terminating one more line extends the text by that line and a newline.
pub proof fn lemma_unlines_push(ls: Seq<Seq<char>>, l: Seq<char>)
    ensures
        unlines(ls.push(l)) == unlines(ls) + l + seq!['\n'],
    decreases ls.len(),
{
    assert(unlines(ls.push(l)) == ls.push(l)[0] + seq!['\n'] + unlines(ls.push(l).drop_first()));
    if ls.len() == 0 {
        assert(ls.push(l)[0] == l);
        assert(ls.push(l).drop_first() =~= Seq::<Seq<char>>::empty());
        assert(unlines(Seq::<Seq<char>>::empty()) == Seq::<char>::empty());
        assert(unlines(ls) == Seq::<char>::empty());
        assert(unlines(ls.push(l)) =~= unlines(ls) + l + seq!['\n']);
    } else {
        lemma_unlines_push(ls.drop_first(), l);
        assert(ls.push(l)[0] == ls[0]);
        assert(ls.push(l).drop_first() =~= ls.drop_first().push(l));
        assert(unlines(ls) == ls[0] + seq!['\n'] + unlines(ls.drop_first()));
        assert(unlines(ls.push(l)) =~= unlines(ls) + l + seq!['\n']);
    }
}

/// The lines of a text, split at newlines; a trailing newline closes the
/// last line rather than opening an empty one.
pub open spec fn split_lines(s: Seq<char>) -> Seq<Seq<char>>
    decreases s.len(),
{
    if s.len() == 0 {
        Seq::empty()
    } else if s[0] == '\n' {
        seq![Seq::<char>::empty()] + split_lines(s.drop_first())
    } else {
        let rest = split_lines(s.drop_first());
        if rest.len() == 0 {
            seq![seq![s[0]]]
        } else {
            seq![seq![s[0]] + rest[0]] + rest.drop_first()
        }
    }
}

/// Splitting takes a leading newline-free line back off the front.
pub proof fn lemma_split_line(l: Seq<char>, s: Seq<char>)
    requires
        !l.contains('\n'),
    ensures
        split_lines(l + seq!['\n'] + s) == seq![l] + split_lines(s),
    decreases l.len(),
{
    let t = l + seq!['\n'] + s;
    if l.len() == 0 {
        assert(t[0] == '\n');
        assert(t.drop_first() =~= s);
        assert(l =~= Seq::<char>::empty());
        assert(split_lines(t) =~= seq![l] + split_lines(s));
    } else {
        assert(t[0] == l[0]);
        assert(l[0] != '\n') by {
            if l[0] == '\n' {
                assert(l.contains('\n'));
            }
        }
        assert(!l.drop_first().contains('\n')) by {
            if l.drop_first().contains('\n') {
                let i = choose|i: int|
                    0 <= i < l.drop_first().len() && l.drop_first()[i] == '\n';
                assert(l[i + 1] == '\n');
                assert(l.contains('\n'));
            }
        }
        lemma_split_line(l.drop_first(), s);
        assert(t.drop_first() =~= l.drop_first() + seq!['\n'] + s);
        let rest = split_lines(t.drop_first());
        assert(rest == seq![l.drop_first()] + split_lines(s));
        assert(rest[0] == l.drop_first());
        assert(rest.len() > 0);
        assert(split_lines(t) == seq![seq![t[0]] + rest[0]] + rest.drop_first());
        assert(seq![l[0]] + l.drop_first() =~= l);
        assert(rest.drop_first() =~= split_lines(s));
        assert(split_lines(t) =~= seq![l] + split_lines(s));
    }
}

/// Law: terminating newline-free lines and splitting the text again gives
/// back exactly those lines. This pins the written format down: a reader of
/// the output recovers precisely the lines the writer meant.
pub proof fn lemma_split_unlines(ls: Seq<Seq<char>>)
    requires
        forall|i: int| 0 <= i < ls.len() ==> !(#[trigger] ls[i]).contains('\n'),
    ensures
        split_lines(unlines(ls)) == ls,
    decreases ls.len(),
{
    if ls.len() == 0 {
        assert(unlines(ls) == Seq::<char>::empty());
        assert(split_lines(unlines(ls)) =~= ls);
    } else {
        assert(forall|i: int|
            0 <= i < ls.drop_first().len() ==> ls.drop_first()[i] == ls[i + 1]);
        lemma_split_unlines(ls.drop_first());
        assert(!ls[0].contains('\n'));
        lemma_split_line(ls[0], unlines(ls.drop_first()));
        assert(unlines(ls) == ls[0] + seq!['\n'] + unlines(ls.drop_first()));
        assert(split_lines(unlines(ls)) =~= ls);
    }
}

/// Texts of whole lines concatenate as their line lists do.
pub proof fn lemma_unlines_concat(a: Seq<Seq<char>>, b: Seq<Seq<char>>)
    ensures
        unlines(a + b) == unlines(a) + unlines(b),
    decreases a.len(),
{
    if a.len() == 0 {
        assert(a + b =~= b);
        assert(unlines(a) == Seq::<char>::empty());
        assert(unlines(a + b) =~= unlines(a) + unlines(b));
    } else {
        lemma_unlines_concat(a.drop_first(), b);
        assert((a + b).drop_first() =~= a.drop_first() + b);
        assert((a + b)[0] == a[0]);
        assert(unlines(a + b) == (a + b)[0] + seq!['\n'] + unlines((a + b).drop_first()));
        assert(unlines(a) == a[0] + seq!['\n'] + unlines(a.drop_first()));
        assert(unlines(a + b) =~= unlines(a) + unlines(b));
    }
}

/// A header line never holds a newline when its label holds none.
pub proof fn lemma_header_line_clean(label: Seq<char>)
    requires
        !label.contains('\n'),
    ensures
        !header_line(label).contains('\n'),
{
    let h = header_line(label);
    if h.contains('\n') {
        let i = choose|i: int| 0 <= i < h.len() && h[i] == '\n';
        if i >= 2 {
            assert(label[i - 2] == '\n');
            assert(label.contains('\n'));
        }
    }
}

/// Law: a report of two sections written in sequence splits back into
/// exactly the first header line, the first run of values, the second header
/// line, and the second run of values, in that order — so the finished file
/// holds exactly two `#`-headers, each followed by its own values.
pub proof fn lemma_report_line_structure(
    l1: Seq<char>,
    v1: Seq<Seq<char>>,
    l2: Seq<char>,
    v2: Seq<Seq<char>>,
)
    requires
        !l1.contains('\n'),
        !l2.contains('\n'),
        forall|i: int| 0 <= i < v1.len() ==> !(#[trigger] v1[i]).contains('\n'),
        forall|i: int| 0 <= i < v2.len() ==> !(#[trigger] v2[i]).contains('\n'),
    ensures
        split_lines(section_text(l1, v1) + section_text(l2, v2)) == seq![header_line(l1)] + v1
            + seq![header_line(l2)] + v2,
{
    let s1 = seq![header_line(l1)] + v1;
    let s2 = seq![header_line(l2)] + v2;
    lemma_unlines_concat(s1, s2);
    assert(s1 + s2 =~= seq![header_line(l1)] + v1 + seq![header_line(l2)] + v2);
    lemma_header_line_clean(l1);
    lemma_header_line_clean(l2);
    assert(forall|i: int| 0 <= i < (s1 + s2).len() ==> !((s1 + s2)[i]).contains('\n')) by {
        assert forall|i: int| 0 <= i < (s1 + s2).len() implies !((s1 + s2)[i]).contains(
            '\n',
        ) by {
            if 1 <= i < s1.len() {
                assert((s1 + s2)[i] == v1[i - 1]);
            } else if s1.len() + 1 <= i {
                assert((s1 + s2)[i] == v2[i - s1.len() - 1]);
            }
        }
    }
    lemma_split_unlines(s1 + s2);
}

/// Renders one scenario section: `# ` and the label on the first line, then
/// each value on a line of its own.
pub fn render_section(label: &str, values: &Vec<String>) -> (r: String)
    ensures
        r@ == section_text(label@, values.deep_view()),
{
    proof {
        reveal_strlit("# ");
        reveal_strlit("\n");
    }
    let mut r = String::new();
    r.append("# ");
    r.append(label);
    r.append("\n");
    proof {
        assert("# "@ =~= seq!['#', ' ']);
        assert("\n"@ =~= seq!['\n']);
        assert(unlines(seq![header_line(label@)]) == seq![header_line(label@)][0] + seq!['\n']
            + unlines(seq![header_line(label@)].drop_first()));
        assert(seq![header_line(label@)].drop_first() =~= Seq::<Seq<char>>::empty());
        assert(unlines(Seq::<Seq<char>>::empty()) == Seq::<char>::empty());
        assert(r@ =~= unlines(seq![header_line(label@)]));
    }
    let n = values.len();
    for i in 0..n
        invariant
            n == values@.len(),
            r@ == unlines(seq![header_line(label@)] + values.deep_view().take(i as int)),
    {
        proof {
            reveal_strlit("\n");
        }
        r.append(values[i].as_str());
        r.append("\n");
        proof {
            assert("\n"@ =~= seq!['\n']);
            assert(values.deep_view()[i as int] == values@[i as int]@);
            lemma_unlines_push(
                seq![header_line(label@)] + values.deep_view().take(i as int),
                values@[i as int]@,
            );
            assert((seq![header_line(label@)] + values.deep_view().take(i as int)).push(
                values@[i as int]@,
            ) =~= seq![header_line(label@)] + values.deep_view().take(i as int + 1));
            assert(r@ =~= unlines(
                seq![header_line(label@)] + values.deep_view().take(i as int + 1),
            ));
        }
    }
    proof {
        assert(values.deep_view().take(n as int) =~= values.deep_view());
    }
    r
}

/// The label of one scenario, from already-formatted percentage figures.
pub open spec fn label_text(leveraged: bool, annual_pct: Seq<char>, vol_pct: Seq<char>) -> Seq<
    char,
> {
    (if leveraged {
        "With leverage (r = "@
    } else {
        "Without leverage (r = "@
    }) + annual_pct + "% per year, sigma = "@ + vol_pct + "%)"@
}

/// Builds a scenario's label from the preformatted annualized-growth and
/// volatility percentages.
pub fn scenario_label(leveraged: bool, annual_pct: &str, vol_pct: &str) -> (r: String)
    ensures
        r@ == label_text(leveraged, annual_pct@, vol_pct@),
{
    let mut r = if leveraged {
        String::from_str("With leverage (r = ")
    } else {
        String::from_str("Without leverage (r = ")
    };
    r.append(annual_pct);
    r.append("% per year, sigma = ");
    r.append(vol_pct);
    r.append("%)");
    proof {
        assert(r@ =~= label_text(leveraged, annual_pct@, vol_pct@));
    }
    r
}

} // verus!
