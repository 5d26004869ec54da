//! What holds of `option` answers: written options read back.

use vstd::prelude::*;
use crate::laws::first_token_among;
use crate::line_break::has_line_break;
use crate::numbers::{lemma_signed_decimal_is_word, lemma_signed_decimal_reads_back, signed_decimal};
use crate::parser::{
    combo_stops, spec_combo_args, spec_integer_arg, spec_option_kind, spec_spin_args,
};
use crate::readback::{
    lemma_line_break_concat, lemma_read_until_blank, lemma_signed_decimal_no_line_break,
};
use crate::render::{render_option, render_vars};
use crate::text_lemmas::{
    ends_token, is_phrase, is_word, lemma_read_blank, lemma_read_rest_of_line,
    lemma_read_until_phrase, lemma_read_word, stop_or_end,
};
use crate::tokens::{is_separator_char, spec_read};
use crate::types::{ErrorKind, SpecUciOption};

verus! {

/// Written variants of a `combo` option: the first one, then the others.
proof fn lemma_render_vars_cons(v: Seq<char>, vs: Seq<Seq<char>>)
    ensures
        render_vars(seq![v] + vs) == " var "@ + v + render_vars(vs),
    decreases vs.len(),
{
    let x = seq![v] + vs;
    if vs.len() == 0 {
        assert(x.drop_last() =~= Seq::<Seq<char>>::empty());
        assert(render_vars(Seq::<Seq<char>>::empty()) =~= Seq::<char>::empty());
        assert(x.last() == v);
        assert(render_vars(x) =~= " var "@ + v + render_vars(vs));
    } else {
        assert(x.drop_last() =~= seq![v] + vs.drop_last());
        assert(x.last() == vs.last());
        lemma_render_vars_cons(v, vs.drop_last());
        assert(render_vars(x) =~= " var "@ + v + render_vars(vs));
    }
}

/// Whether every text of `vs` is a phrase that no `default` or `var` token interrupts,
/// without line breaks.
pub open spec fn combo_phrases(vs: Seq<Seq<char>>) -> bool {
    forall|i: int| 0 <= i < vs.len() ==> is_phrase(#[trigger] vs[i], combo_stops()) && !has_line_break(vs[i])
}

/// The text after a variant: nothing, or a written variant.
proof fn lemma_vars_stop_or_end(vs: Seq<Seq<char>>)
    ensures
        stop_or_end(render_vars(vs), combo_stops()),
        ends_token(render_vars(vs)),
{
    reveal_strlit("var");
    reveal_strlit(" var ");
    if vs.len() > 0 {
        lemma_render_vars_cons(vs[0], vs.drop_first());
        assert(vs =~= seq![vs[0]] + vs.drop_first());
        let rest = vs[0] + render_vars(vs.drop_first());
        assert(render_vars(vs) =~= seq![' '] + "var"@ + (seq![' '] + rest));
        lemma_read_word(seq![' '], "var"@, seq![' '] + rest);
        assert(render_vars(vs).skip(0) =~= render_vars(vs));
        assert(combo_stops()[1] == "var"@);
    } else {
        assert(render_vars(vs) =~= Seq::<char>::empty());
    }
}

/// Written variants read back, after those read so far.
proof fn lemma_combo_vars_read_back(vs: Seq<Seq<char>>, d: Option<Seq<char>>, acc: Seq<Seq<char>>)
    requires
        combo_phrases(vs),
    ensures
        spec_combo_args(render_vars(vs), d, acc) == (
            Ok::<(Option<Seq<char>>, Seq<Seq<char>>), ErrorKind>((d, acc + vs)),
            Seq::<char>::empty(),
        ),
        !has_line_break(render_vars(vs)),
    decreases vs.len(),
{
    reveal_strlit("var");
    reveal_strlit(" var ");
    reveal_strlit("default");
    assert("var"@.len() != "default"@.len());
    assert("var"@ != "default"@);
    if vs.len() == 0 {
        assert(render_vars(vs) =~= Seq::<char>::empty());
        lemma_read_blank(Seq::<char>::empty());
        assert(acc + vs =~= acc);
    } else {
        let v = vs[0];
        let tail = vs.drop_first();
        assert(vs =~= seq![v] + tail);
        lemma_render_vars_cons(v, tail);
        assert(combo_phrases(tail)) by {
            assert forall|i: int| 0 <= i < tail.len() implies is_phrase(#[trigger] tail[i], combo_stops()) && !has_line_break(tail[i]) by {
                assert(tail[i] == vs[i + 1]);
            }
        }
        assert(is_phrase(vs[0], combo_stops()) && !has_line_break(vs[0]));
        lemma_combo_vars_read_back(tail, d, acc.push(v));
        let rv = render_vars(tail);
        lemma_vars_stop_or_end(tail);
        lemma_read_until_phrase(seq![' '], v, rv, combo_stops());
        let s = render_vars(vs);
        assert(s =~= seq![' '] + "var"@ + (seq![' '] + v + rv));
        assert(ends_token(seq![' '] + v + rv));
        lemma_read_word(seq![' '], "var"@, seq![' '] + v + rv);
        assert(acc.push(v) + tail =~= acc + vs);
        assert(!has_line_break(" var "@));
        lemma_line_break_concat(" var "@, v);
        lemma_line_break_concat(" var "@ + v, rv);
    }
}

/// Whether the option `o` reads back from the text written for it: the default and the
/// variants of a `combo` are phrases that no `default` or `var` token interrupts, the
/// default of a `string` starts with a word character or is empty, and no text holds a
/// line break.
pub open spec fn option_reads_back(o: SpecUciOption) -> bool {
    match o {
        SpecUciOption::Combo { default, var } => is_phrase(default, combo_stops()) && !has_line_break(default) && combo_phrases(var),
        SpecUciOption::String { default } => (default.len() == 0 || !is_separator_char(default[0])) && !has_line_break(default),
        _ => true,
    }
}

/// A written `check` option reads back as that option.
proof fn lemma_check_kind_reads_back(o: SpecUciOption)
    requires
        o is Check,
        option_reads_back(o),
    ensures
        render_option(o) == "type"@ + option_kind_text(o),
        ends_token(option_kind_text(o)),
        !has_line_break(render_option(o)),
        spec_option_kind(option_kind_text(o)) == (Ok::<SpecUciOption, ErrorKind>(o), Seq::<char>::empty()),
{
    reveal_strlit("check");
    reveal_strlit("default");
    reveal_strlit("false");
    reveal_strlit("true");
    reveal_strlit("type");
    reveal_strlit("type check default ");
    match o {
        SpecUciOption::Check { default } => {
            let b = if default { "true"@ } else { "false"@ };
            assert("false"@.len() != "true"@.len());
            assert("false"@ != "true"@);
            let x = option_kind_text(o);
            assert(x =~= seq![' '] + "check"@ + (seq![' '] + "default"@ + (seq![' '] + b + Seq::<char>::empty())));
            lemma_read_word(seq![' '], b, Seq::<char>::empty());
            lemma_read_word(seq![' '], "default"@, seq![' '] + b + Seq::<char>::empty());
            lemma_read_word(seq![' '], "check"@, seq![' '] + "default"@ + (seq![' '] + b + Seq::<char>::empty()));
            assert(render_option(o) =~= "type"@ + x);
            assert(!has_line_break("type check default "@));
            assert(!has_line_break(b));
            lemma_line_break_concat("type check default "@, b);
        },
        _ => {},
    }
}

/// What is written after `type spin`: its arguments, each after a space.
spec fn spin_args_text(default: i64, min: i64, max: i64) -> Seq<char> {
    seq![' '] + "default"@ + (seq![' '] + signed_decimal(default as int) + (seq![' '] + "min"@ + (
    seq![' '] + signed_decimal(min as int) + (seq![' '] + "max"@ + (seq![' '] + signed_decimal(
        max as int,
    ))))))
}

/// One argument of a `spin` option, its key and its number, reads back.
proof fn lemma_spin_step(
    key: Seq<char>,
    v: i64,
    r: Seq<char>,
    default: Option<i64>,
    min: Option<i64>,
    max: Option<i64>,
)
    requires
        key == "default"@ || key == "min"@ || key == "max"@,
        ends_token(r),
    ensures
        spec_spin_args(seq![' '] + key + (seq![' '] + signed_decimal(v as int) + r), default, min, max)
            == spec_spin_args(
            r,
            if key == "default"@ { Some(v) } else { default },
            if key == "min"@ { Some(v) } else { min },
            if key == "max"@ { Some(v) } else { max },
        ),
{
    reveal_strlit("default");
    reveal_strlit("min");
    reveal_strlit("max");
    assert("min"@.len() != "default"@.len());
    assert("max"@.len() != "default"@.len());
    assert("max"@[1] != "min"@[1]);
    assert(is_word(key));
    let d = signed_decimal(v as int);
    lemma_signed_decimal_is_word(v as int);
    lemma_signed_decimal_reads_back(v as int, i64::MIN as int, i64::MAX as int);
    lemma_read_word(seq![' '], d, r);
    lemma_read_word(seq![' '], key, seq![' '] + d + r);
    assert(spec_integer_arg(seq![' '] + d + r, true, i64::MIN as int, i64::MAX as int) == (Ok::<int, ErrorKind>(v as int), r));
}

/// The arguments of a written `spin` option read back as its three numbers.
proof fn lemma_spin_args_read_back(default: i64, min: i64, max: i64)
    ensures
        spec_spin_args(spin_args_text(default, min, max), None, None, None) == (
            Ok::<(Option<i64>, Option<i64>, Option<i64>), ErrorKind>((Some(default), Some(min), Some(max))),
            Seq::<char>::empty(),
        ),
        ends_token(spin_args_text(default, min, max)),
{
    reveal_strlit("default");
    reveal_strlit("min");
    reveal_strlit("max");
    assert("min"@.len() != "default"@.len());
    assert("max"@.len() != "default"@.len());
    assert("max"@[1] != "min"@[1]);
    let e = Seq::<char>::empty();
    let d0 = signed_decimal(default as int);
    let d1 = signed_decimal(min as int);
    let d2 = signed_decimal(max as int);
    let r4 = seq![' '] + "max"@ + (seq![' '] + d2 + e);
    let r2 = seq![' '] + "min"@ + (seq![' '] + d1 + r4);
    let r0 = seq![' '] + "default"@ + (seq![' '] + d0 + r2);
    assert(spin_args_text(default, min, max) =~= r0);
    lemma_read_blank(e);
    lemma_spin_step("max"@, max, e, Some(default), Some(min), None);
    lemma_spin_step("min"@, min, r4, Some(default), None, None);
    lemma_spin_step("default"@, default, r2, None, None, None);
}

/// A written `spin` option reads back as that option.
#[verifier::rlimit(30)]
proof fn lemma_spin_kind_reads_back(o: SpecUciOption)
    requires
        o is Spin,
        option_reads_back(o),
    ensures
        render_option(o) == "type"@ + option_kind_text(o),
        ends_token(option_kind_text(o)),
        !has_line_break(render_option(o)),
        spec_option_kind(option_kind_text(o)) == (Ok::<SpecUciOption, ErrorKind>(o), Seq::<char>::empty()),
{
    reveal_strlit(" max ");
    reveal_strlit(" min ");
    reveal_strlit("check");
    reveal_strlit("default");
    reveal_strlit("max");
    reveal_strlit("min");
    reveal_strlit("spin");
    reveal_strlit("type");
    reveal_strlit("type spin default ");
    match o {
        SpecUciOption::Spin { default, min, max } => {
            assert("spin"@.len() != "check"@.len());
            let d0 = signed_decimal(default as int);
            let d1 = signed_decimal(min as int);
            let d2 = signed_decimal(max as int);
            let a = spin_args_text(default, min, max);
            let x = option_kind_text(o);
            assert(render_option(o) =~= "type"@ + (seq![' '] + "spin"@ + a)) by {
                assert(render_option(o) =~= "type spin default "@ + d0 + " min "@ + d1 + " max "@ + d2);
            }
            assert(x =~= seq![' '] + "spin"@ + a);
            lemma_spin_args_read_back(default, min, max);
            lemma_read_word(seq![' '], "spin"@, a);
            assert(!has_line_break(render_option(o))) by {
                lemma_signed_decimal_no_line_break(default as int);
                lemma_signed_decimal_no_line_break(min as int);
                lemma_signed_decimal_no_line_break(max as int);
                assert(!has_line_break("type spin default "@));
                assert(!has_line_break(" min "@));
                assert(!has_line_break(" max "@));
                lemma_line_break_concat("type spin default "@, d0);
                lemma_line_break_concat("type spin default "@ + d0, " min "@);
                lemma_line_break_concat("type spin default "@ + d0 + " min "@, d1);
                lemma_line_break_concat("type spin default "@ + d0 + " min "@ + d1, " max "@);
                lemma_line_break_concat("type spin default "@ + d0 + " min "@ + d1 + " max "@, d2);
            }
        },
        _ => {},
    }
}

/// The arguments of a written `combo` option read back as its default and variants.
proof fn lemma_combo_args_read_back(default: Seq<char>, var: Seq<Seq<char>>)
    requires
        is_phrase(default, combo_stops()),
        combo_phrases(var),
    ensures
        spec_combo_args(seq![' '] + "default"@ + (seq![' '] + default + render_vars(var)), None, seq![])
            == (Ok::<(Option<Seq<char>>, Seq<Seq<char>>), ErrorKind>((Some(default), var)), Seq::<char>::empty()),
        !has_line_break(render_vars(var)),
{
    reveal_strlit("default");
    reveal_strlit("var");
    assert("var"@.len() != "default"@.len());
    let rv = render_vars(var);
    lemma_vars_stop_or_end(var);
    lemma_combo_vars_read_back(var, Some(default), seq![]);
    lemma_read_until_phrase(seq![' '], default, rv, combo_stops());
    assert(ends_token(seq![' '] + default + rv));
    lemma_read_word(seq![' '], "default"@, seq![' '] + default + rv);
    assert(combo_stops()[0] == "default"@);
    assert(seq![] + var =~= var);
}

/// A written `combo` option reads back as that option.
#[verifier::rlimit(30)]
proof fn lemma_combo_kind_reads_back(o: SpecUciOption)
    requires
        o is Combo,
        option_reads_back(o),
    ensures
        render_option(o) == "type"@ + option_kind_text(o),
        ends_token(option_kind_text(o)),
        !has_line_break(render_option(o)),
        spec_option_kind(option_kind_text(o)) == (Ok::<SpecUciOption, ErrorKind>(o), Seq::<char>::empty()),
{
    reveal_strlit("check");
    reveal_strlit("combo");
    reveal_strlit("default");
    reveal_strlit("spin");
    reveal_strlit("type");
    reveal_strlit("type combo default ");
    match o {
        SpecUciOption::Combo { default, var } => {
            let e = Seq::<char>::empty();
            let rv = render_vars(var);
            let r0 = seq![' '] + "default"@ + (seq![' '] + default + rv);
            let x = option_kind_text(o);
            assert(render_option(o) =~= "type"@ + (seq![' '] + "combo"@ + r0)) by {
                assert(render_option(o) =~= "type combo default "@ + default + rv);
            }
            assert(x =~= seq![' '] + "combo"@ + r0);
            assert(spec_combo_args(r0, None, seq![]) == (
                Ok::<(Option<Seq<char>>, Seq<Seq<char>>), ErrorKind>((Some(default), var)),
                e,
            )) by {
                lemma_combo_args_read_back(default, var);
            }
            assert(spec_read(x) == (Some("combo"@), r0)) by {
                lemma_read_word(seq![' '], "combo"@, r0);
            }
            assert("combo"@ != "check"@) by {
                assert("combo"@[1] != "check"@[1]);
            }
            assert("combo"@ != "spin"@) by {
                assert("combo"@.len() != "spin"@.len());
            }
            assert(spec_option_kind(x) == (Ok::<SpecUciOption, ErrorKind>(o), e));
            assert(!has_line_break(render_option(o))) by {
                lemma_combo_args_read_back(default, var);
                assert(!has_line_break("type combo default "@));
                lemma_line_break_concat("type combo default "@, default);
                lemma_line_break_concat("type combo default "@ + default, rv);
                assert(render_option(o) =~= "type combo default "@ + default + rv);
            }
        },
        _ => {},
    }
}

/// A written `button` option reads back as that option.
proof fn lemma_button_kind_reads_back(o: SpecUciOption)
    requires
        o is Button,
        option_reads_back(o),
    ensures
        render_option(o) == "type"@ + option_kind_text(o),
        ends_token(option_kind_text(o)),
        !has_line_break(render_option(o)),
        spec_option_kind(option_kind_text(o)) == (Ok::<SpecUciOption, ErrorKind>(o), Seq::<char>::empty()),
{
    reveal_strlit("button");
    reveal_strlit("check");
    reveal_strlit("combo");
    reveal_strlit("spin");
    reveal_strlit("type");
    reveal_strlit("type button");
    match o {
        SpecUciOption::Button => {
            assert("button"@.len() != "check"@.len());
            assert("button"@ != "check"@);
            assert("button"@.len() != "spin"@.len());
            assert("button"@ != "spin"@);
            assert("button"@.len() != "combo"@.len());
            assert("button"@ != "combo"@);
            let x = option_kind_text(o);
            assert(x =~= seq![' '] + "button"@ + Seq::<char>::empty());
            lemma_read_word(seq![' '], "button"@, Seq::<char>::empty());
            lemma_read_blank(Seq::<char>::empty());
            assert(render_option(o) =~= "type"@ + x);
            assert(!has_line_break("type button"@));
        },
        _ => {},
    }
}

/// A written `string` option reads back as that option.
proof fn lemma_string_kind_reads_back(o: SpecUciOption)
    requires
        o is String,
        option_reads_back(o),
    ensures
        render_option(o) == "type"@ + option_kind_text(o),
        ends_token(option_kind_text(o)),
        !has_line_break(render_option(o)),
        spec_option_kind(option_kind_text(o)) == (Ok::<SpecUciOption, ErrorKind>(o), Seq::<char>::empty()),
{
    reveal_strlit("button");
    reveal_strlit("check");
    reveal_strlit("combo");
    reveal_strlit("default");
    reveal_strlit("spin");
    reveal_strlit("string");
    reveal_strlit("type");
    reveal_strlit("type string default ");
    match o {
        SpecUciOption::String { default } => {
            assert("string"@.len() != "check"@.len());
            assert("string"@ != "check"@);
            assert("string"@.len() != "spin"@.len());
            assert("string"@ != "spin"@);
            assert("string"@.len() != "combo"@.len());
            assert("string"@ != "combo"@);
            assert("string"@[0] != "button"@[0]);
            assert("string"@ != "button"@);
            let r0 = seq![' '] + "default"@ + (seq![' '] + default);
            if default.len() > 0 {
                lemma_read_rest_of_line(seq![' '], default);
            } else {
                assert(seq![' '] + default =~= seq![' ']);
                lemma_read_until_blank(seq![' ']);
                assert(default =~= Seq::<char>::empty());
            }
            lemma_read_word(seq![' '], "default"@, seq![' '] + default);
            let x = option_kind_text(o);
            assert(x =~= seq![' '] + "string"@ + r0);
            lemma_read_word(seq![' '], "string"@, r0);
            assert(render_option(o) =~= "type"@ + x);
            assert(!has_line_break("type string default "@));
            lemma_line_break_concat("type string default "@, default);
        },
        _ => {},
    }
}

/// The kind of a written option, and its arguments, read back as that option.
pub proof fn lemma_option_kind_reads_back(o: SpecUciOption)
    requires
        option_reads_back(o),
    ensures
        render_option(o) == "type"@ + option_kind_text(o),
        ends_token(option_kind_text(o)),
        !has_line_break(render_option(o)),
        spec_option_kind(option_kind_text(o)) == (Ok::<SpecUciOption, ErrorKind>(o), Seq::<char>::empty()),
{
    match o {
        SpecUciOption::Check { .. } => lemma_check_kind_reads_back(o),
        SpecUciOption::Spin { .. } => lemma_spin_kind_reads_back(o),
        SpecUciOption::Combo { .. } => lemma_combo_kind_reads_back(o),
        SpecUciOption::Button => lemma_button_kind_reads_back(o),
        SpecUciOption::String { .. } => lemma_string_kind_reads_back(o),
    }
}

/// The text after `type` in a written option.
pub open spec fn option_kind_text(o: SpecUciOption) -> Seq<char> {
    render_option(o).skip(4)
}

} // verus!
