//! Laws of a module's text: the header records the settings the module was
//! made with, so that modules made with different settings read
//! differently.
use vstd::prelude::*;

use crate::ast::module::Module;
use crate::ast::print::bool_text;
use crate::text::{decimal, digit_char};

verus! {

/// A boolean's text starts with `t` for true and `f` for false.
pub proof fn lemma_bool_text_first(b: bool)
    ensures
        bool_text(b).len() > 0,
        bool_text(b)[0] == if b { 't' } else { 'f' },
{
    reveal_strlit("true");
    reveal_strlit("false");
}

/// `x` and `y` agree on their first `n` characters and differ at the next,
/// so the sequences that begin with them differ.
proof fn lemma_differ_at(x: Seq<char>, y: Seq<char>, n: int)
    requires
        0 <= n < x.len(),
        n < y.len(),
        x[n] != y[n],
    ensures
        x != y,
{
}

/// The part of the header before the `disable-shadowing` setting.
pub open spec fn shadowing_prefix(m: &Module) -> Seq<char> {
    let c = m.spec_config();
    "% initial seed: "@ + decimal(m.spec_initial_seed() as nat) + "\n"@ + "% max-size: "@ + decimal(c.max_size as nat)
        + "\n"@ + "% max-recursion-depth: "@ + decimal(c.max_recursion_depth as nat) + "\n"@
        + "% disable-shadowing: "@
}

/// The part of the header before the `disable-maybe` setting.
pub open spec fn maybe_prefix(m: &Module) -> Seq<char> {
    shadowing_prefix(m) + bool_text(m.spec_config().disable_shadowing) + "\n"@ + "% disable-maybe: "@
}

/// The part of the header before the `deterministic` setting.
pub open spec fn deterministic_prefix(m: &Module) -> Seq<char> {
    maybe_prefix(m) + bool_text(m.spec_config().disable_maybe) + "\n"@ + "% deterministic: "@
}

/// The header continues its prefixes with the settings' texts.
proof fn lemma_header_at_settings(m: &Module)
    ensures
        m.header_text().len() > deterministic_prefix(m).len(),
        m.header_text()[shadowing_prefix(m).len() as int] == bool_text(m.spec_config().disable_shadowing)[0],
        m.header_text()[maybe_prefix(m).len() as int] == bool_text(m.spec_config().disable_maybe)[0],
        m.header_text()[deterministic_prefix(m).len() as int] == bool_text(m.spec_config().deterministic)[0],
        m.text()[shadowing_prefix(m).len() as int] == bool_text(m.spec_config().disable_shadowing)[0],
        m.text()[maybe_prefix(m).len() as int] == bool_text(m.spec_config().disable_maybe)[0],
        m.text()[deterministic_prefix(m).len() as int] == bool_text(m.spec_config().deterministic)[0],
{
    let c = m.spec_config();
    lemma_bool_text_first(c.disable_shadowing);
    lemma_bool_text_first(c.disable_maybe);
    lemma_bool_text_first(c.deterministic);
    let d = deterministic_prefix(m) + bool_text(c.deterministic);
    let rest = "\n"@ + "% wrapper: "@ + c.wrapper_mode@ + "\n"@ + (if !c.disable_maybe {
        "-feature(maybe_expr, enable).\n"@
    } else {
        Seq::empty()
    }) + "-module("@ + m.spec_module_name()@ + ").\n"@ + "-compile([export_all])."@;
    assert(m.header_text() =~= d + rest);
    assert(m.text() == m.header_text() + m.declarations_text(m.spec_functions().len()));
}

/// Modules that differ in the `disable-shadowing` setting read differently.
#[verifier::spinoff_prover]
#[verifier::rlimit(60)]
pub proof fn lemma_text_records_shadowing(m1: &Module, m2: &Module)
    requires
        shadowing_prefix(m1) == shadowing_prefix(m2),
        m1.spec_config().disable_shadowing != m2.spec_config().disable_shadowing,
    ensures
        m1.text() != m2.text(),
        m1.header_text() != m2.header_text(),
{
    lemma_header_at_settings(m1);
    lemma_header_at_settings(m2);
    lemma_bool_text_first(m1.spec_config().disable_shadowing);
    lemma_bool_text_first(m2.spec_config().disable_shadowing);
    let n = shadowing_prefix(m1).len() as int;
    lemma_differ_at(m1.text(), m2.text(), n);
    lemma_differ_at(m1.header_text(), m2.header_text(), n);
}

/// Modules that differ in the `disable-maybe` setting, and in nothing that
/// comes before it in the header, read differently.
#[verifier::spinoff_prover]
#[verifier::rlimit(60)]
pub proof fn lemma_text_records_maybe(m1: &Module, m2: &Module)
    requires
        maybe_prefix(m1) == maybe_prefix(m2),
        m1.spec_config().disable_maybe != m2.spec_config().disable_maybe,
    ensures
        m1.text() != m2.text(),
        m1.header_text() != m2.header_text(),
{
    lemma_header_at_settings(m1);
    lemma_header_at_settings(m2);
    lemma_bool_text_first(m1.spec_config().disable_maybe);
    lemma_bool_text_first(m2.spec_config().disable_maybe);
    let n = maybe_prefix(m1).len() as int;
    lemma_differ_at(m1.text(), m2.text(), n);
    lemma_differ_at(m1.header_text(), m2.header_text(), n);
}

/// Modules that differ in the `deterministic` setting, and in nothing that
/// comes before it in the header, read differently.
#[verifier::spinoff_prover]
#[verifier::rlimit(60)]
pub proof fn lemma_text_records_deterministic(m1: &Module, m2: &Module)
    requires
        deterministic_prefix(m1) == deterministic_prefix(m2),
        m1.spec_config().deterministic != m2.spec_config().deterministic,
    ensures
        m1.text() != m2.text(),
        m1.header_text() != m2.header_text(),
{
    lemma_header_at_settings(m1);
    lemma_header_at_settings(m2);
    lemma_bool_text_first(m1.spec_config().deterministic);
    lemma_bool_text_first(m2.spec_config().deterministic);
    let n = deterministic_prefix(m1).len() as int;
    lemma_differ_at(m1.text(), m2.text(), n);
    lemma_differ_at(m1.header_text(), m2.header_text(), n);
}

/// A number's decimal text has no line break.
pub proof fn lemma_decimal_no_newline(n: nat)
    ensures
        !decimal(n).contains('\n'),
    decreases n,
{
    if n >= 10 {
        lemma_decimal_no_newline(n / 10);
        assert forall|i: int| 0 <= i < decimal(n).len() implies decimal(n)[i] != '\n' by {
            if i < decimal(n / 10).len() {
                assert(decimal(n)[i] == decimal(n / 10)[i]);
            }
        }
    }
}

/// Different numbers have different decimal texts.
pub proof fn lemma_decimal_injective(a: nat, b: nat)
    ensures
        a != b ==> decimal(a) != decimal(b),
    decreases a + b,
{
    if a != b && decimal(a) == decimal(b) {
        if a < 10 && b < 10 {
            assert(decimal(a)[0] == digit_char(a));
            assert(decimal(b)[0] == digit_char(b));
        } else if a < 10 {
            assert(decimal(b).len() == decimal(b / 10).len() + 1);
            assert(decimal(b / 10).len() > 0) by {
                if b / 10 >= 10 {
                    assert(decimal(b / 10) == decimal(b / 10 / 10).push(digit_char(b / 10 % 10)));
                }
            }
        } else if b < 10 {
            assert(decimal(a).len() == decimal(a / 10).len() + 1);
            assert(decimal(a / 10).len() > 0) by {
                if a / 10 >= 10 {
                    assert(decimal(a / 10) == decimal(a / 10 / 10).push(digit_char(a / 10 % 10)));
                }
            }
        } else {
            let da = decimal(a / 10);
            let db = decimal(b / 10);
            assert(decimal(a) == da.push(digit_char(a % 10)));
            assert(decimal(b) == db.push(digit_char(b % 10)));
            assert(da =~= decimal(a).drop_last());
            assert(db =~= decimal(b).drop_last());
            assert(decimal(a)[decimal(a).len() - 1] == digit_char(a % 10));
            assert(decimal(b)[decimal(b).len() - 1] == digit_char(b % 10));
            assert(digit_char(a % 10) == digit_char(b % 10));
            assert(a % 10 == b % 10);
            lemma_decimal_injective(a / 10, b / 10);
        }
    }
}

/// Two texts that carry different fields at the same place, each field
/// ending in a character it does not hold, are different, whatever follows
/// them.
pub proof fn lemma_fields_differ(
    x: Seq<char>,
    y: Seq<char>,
    xs: Seq<char>,
    ys: Seq<char>,
    n: int,
    s1: Seq<char>,
    s2: Seq<char>,
    end: char,
)
    requires
        0 <= n,
        x.len() > n + s1.len(),
        y.len() > n + s2.len(),
        forall|i: int| 0 <= i < s1.len() ==> x[n + i] == #[trigger] s1[i],
        forall|i: int| 0 <= i < s2.len() ==> y[n + i] == #[trigger] s2[i],
        x[n + s1.len()] == end,
        y[n + s2.len()] == end,
        s1 != s2,
        !s1.contains(end),
        !s2.contains(end),
    ensures
        x != y,
        x + xs != y + ys,
{
    if x == y || x + xs == y + ys {
        let u = x + xs;
        let v = y + ys;
        assert forall|i: int| 0 <= i < s1.len() implies u[n + i] == #[trigger] s1[i] by {}
        assert forall|i: int| 0 <= i < s2.len() implies v[n + i] == #[trigger] s2[i] by {}
        assert(u[n + s1.len()] == end);
        assert(v[n + s2.len()] == end);
        if s1.len() == s2.len() {
            assert(s1 =~= s2);
        } else if s1.len() < s2.len() {
            assert(s2[s1.len() as int] == end);
        } else {
            assert(s1[s2.len() as int] == end);
        }
    }
}

/// The part of the header before the `max-size` setting.
pub open spec fn max_size_prefix(m: &Module) -> Seq<char> {
    "% initial seed: "@ + decimal(m.spec_initial_seed() as nat) + "\n"@ + "% max-size: "@
}

/// The part of the header before the `max-recursion-depth` setting.
pub open spec fn depth_prefix(m: &Module) -> Seq<char> {
    max_size_prefix(m) + decimal(m.spec_config().max_size as nat) + "\n"@ + "% max-recursion-depth: "@
}

/// The part of the header before the `wrapper` setting.
pub open spec fn wrapper_prefix(m: &Module) -> Seq<char> {
    deterministic_prefix(m) + bool_text(m.spec_config().deterministic) + "\n"@ + "% wrapper: "@
}

/// The header after the `wrapper` setting.
pub open spec fn after_wrapper(m: &Module) -> Seq<char> {
    let c = m.spec_config();
    "\n"@ + (if !c.disable_maybe {
        "-feature(maybe_expr, enable).\n"@
    } else {
        Seq::empty()
    }) + "-module("@ + m.spec_module_name()@ + ").\n"@ + "-compile([export_all])."@
}

/// The header after the `max-recursion-depth` setting.
pub open spec fn after_depth(m: &Module) -> Seq<char> {
    let c = m.spec_config();
    "\n"@ + "% disable-shadowing: "@ + bool_text(c.disable_shadowing) + "\n"@ + "% disable-maybe: "@
        + bool_text(c.disable_maybe) + "\n"@ + "% deterministic: "@ + bool_text(c.deterministic) + "\n"@
        + "% wrapper: "@ + c.wrapper_mode@ + after_wrapper(m)
}

/// The header after the `max-size` setting.
pub open spec fn after_size(m: &Module) -> Seq<char> {
    "\n"@ + "% max-recursion-depth: "@ + decimal(m.spec_config().max_recursion_depth as nat) + after_depth(m)
}

/// The header after the seed.
pub open spec fn after_seed(m: &Module) -> Seq<char> {
    "\n"@ + "% max-size: "@ + decimal(m.spec_config().max_size as nat) + after_size(m)
}

/// A text made of a prefix, a field, and a rest that starts a new line
/// holds the field right after the prefix and a line break after it.
proof fn lemma_field_at(h: Seq<char>, p: Seq<char>, f: Seq<char>, r: Seq<char>)
    requires
        h == p + f + r,
        r.len() > 0,
        r[0] == '\n',
    ensures
        h.len() > p.len() + f.len(),
        forall|i: int| 0 <= i < f.len() ==> h[p.len() + i] == #[trigger] f[i],
        h[(p.len() + f.len()) as int] == '\n',
{
}

proof fn lemma_newline_first(r: Seq<char>)
    ensures
        ("\n"@ + r).len() > 0,
        ("\n"@ + r)[0] == '\n',
{
    reveal_strlit("\n");
}

#[verifier::spinoff_prover]
#[verifier::rlimit(60)]
proof fn lemma_header_split(m: &Module)
    ensures
        m.header_text() == "% initial seed: "@ + decimal(m.spec_initial_seed() as nat) + after_seed(m),
        m.header_text() == max_size_prefix(m) + decimal(m.spec_config().max_size as nat) + after_size(m),
        m.header_text() == depth_prefix(m) + decimal(m.spec_config().max_recursion_depth as nat) + after_depth(m),
        m.header_text() == wrapper_prefix(m) + m.spec_config().wrapper_mode@ + after_wrapper(m),
{
    assert(m.header_text() =~= wrapper_prefix(m) + m.spec_config().wrapper_mode@ + after_wrapper(m));
    assert(m.header_text() =~= depth_prefix(m) + decimal(m.spec_config().max_recursion_depth as nat) + after_depth(m));
    assert(m.header_text() =~= max_size_prefix(m) + decimal(m.spec_config().max_size as nat) + after_size(m));
    assert(m.header_text() =~= "% initial seed: "@ + decimal(m.spec_initial_seed() as nat) + after_seed(m));
}

/// Modules that differ in their seed read differently.
#[verifier::spinoff_prover]
#[verifier::rlimit(60)]
pub proof fn lemma_text_records_seed(m1: &Module, m2: &Module)
    requires
        m1.spec_initial_seed() != m2.spec_initial_seed(),
    ensures
        m1.header_text() != m2.header_text(),
        m1.text() != m2.text(),
{
    let p = "% initial seed: "@;
    let s1 = decimal(m1.spec_initial_seed() as nat);
    let s2 = decimal(m2.spec_initial_seed() as nat);
    lemma_header_split(m1);
    lemma_header_split(m2);
    lemma_newline_first("% max-size: "@ + decimal(m1.spec_config().max_size as nat) + after_size(m1));
    lemma_newline_first("% max-size: "@ + decimal(m2.spec_config().max_size as nat) + after_size(m2));
    assert(after_seed(m1) == "\n"@ + ("% max-size: "@ + decimal(m1.spec_config().max_size as nat) + after_size(m1)));
    assert(after_seed(m2) == "\n"@ + ("% max-size: "@ + decimal(m2.spec_config().max_size as nat) + after_size(m2)));
    lemma_field_at(m1.header_text(), p, s1, after_seed(m1));
    lemma_field_at(m2.header_text(), p, s2, after_seed(m2));
    lemma_decimal_injective(m1.spec_initial_seed() as nat, m2.spec_initial_seed() as nat);
    lemma_decimal_no_newline(m1.spec_initial_seed() as nat);
    lemma_decimal_no_newline(m2.spec_initial_seed() as nat);
    lemma_fields_differ(
        m1.header_text(),
        m2.header_text(),
        m1.declarations_text(m1.spec_functions().len()),
        m2.declarations_text(m2.spec_functions().len()),
        p.len() as int,
        s1,
        s2,
        '\n',
    );
}

/// Modules that differ in the `max-size` setting, and in nothing that comes
/// before it in the header, read differently.
#[verifier::spinoff_prover]
#[verifier::rlimit(60)]
pub proof fn lemma_text_records_max_size(m1: &Module, m2: &Module)
    requires
        max_size_prefix(m1) == max_size_prefix(m2),
        m1.spec_config().max_size != m2.spec_config().max_size,
    ensures
        m1.header_text() != m2.header_text(),
        m1.text() != m2.text(),
{
    reveal_strlit("\n");
    let s1 = decimal(m1.spec_config().max_size as nat);
    let s2 = decimal(m2.spec_config().max_size as nat);
    lemma_header_split(m1);
    lemma_header_split(m2);
    assert(after_size(m1).len() > 0 && after_size(m1)[0] == '\n');
    assert(after_size(m2).len() > 0 && after_size(m2)[0] == '\n');
    lemma_field_at(m1.header_text(), max_size_prefix(m1), s1, after_size(m1));
    lemma_field_at(m2.header_text(), max_size_prefix(m2), s2, after_size(m2));
    lemma_decimal_injective(m1.spec_config().max_size as nat, m2.spec_config().max_size as nat);
    lemma_decimal_no_newline(m1.spec_config().max_size as nat);
    lemma_decimal_no_newline(m2.spec_config().max_size as nat);
    lemma_fields_differ(
        m1.header_text(),
        m2.header_text(),
        m1.declarations_text(m1.spec_functions().len()),
        m2.declarations_text(m2.spec_functions().len()),
        max_size_prefix(m1).len() as int,
        s1,
        s2,
        '\n',
    );
}

/// Modules that differ in the `max-recursion-depth` setting, and in nothing
/// that comes before it in the header, read differently.
#[verifier::spinoff_prover]
#[verifier::rlimit(60)]
pub proof fn lemma_text_records_depth(m1: &Module, m2: &Module)
    requires
        depth_prefix(m1) == depth_prefix(m2),
        m1.spec_config().max_recursion_depth != m2.spec_config().max_recursion_depth,
    ensures
        m1.header_text() != m2.header_text(),
        m1.text() != m2.text(),
{
    reveal_strlit("\n");
    let s1 = decimal(m1.spec_config().max_recursion_depth as nat);
    let s2 = decimal(m2.spec_config().max_recursion_depth as nat);
    lemma_header_split(m1);
    lemma_header_split(m2);
    assert(after_depth(m1).len() > 0 && after_depth(m1)[0] == '\n');
    assert(after_depth(m2).len() > 0 && after_depth(m2)[0] == '\n');
    lemma_field_at(m1.header_text(), depth_prefix(m1), s1, after_depth(m1));
    lemma_field_at(m2.header_text(), depth_prefix(m2), s2, after_depth(m2));
    lemma_decimal_injective(m1.spec_config().max_recursion_depth as nat, m2.spec_config().max_recursion_depth as nat);
    lemma_decimal_no_newline(m1.spec_config().max_recursion_depth as nat);
    lemma_decimal_no_newline(m2.spec_config().max_recursion_depth as nat);
    lemma_fields_differ(
        m1.header_text(),
        m2.header_text(),
        m1.declarations_text(m1.spec_functions().len()),
        m2.declarations_text(m2.spec_functions().len()),
        depth_prefix(m1).len() as int,
        s1,
        s2,
        '\n',
    );
}

/// Modules that differ in the `wrapper` setting (neither holding a line
/// break), and in nothing that comes before it in the header, read
/// differently.
#[verifier::spinoff_prover]
#[verifier::rlimit(60)]
pub proof fn lemma_text_records_wrapper(m1: &Module, m2: &Module)
    requires
        wrapper_prefix(m1) == wrapper_prefix(m2),
        m1.spec_config().wrapper_mode@ != m2.spec_config().wrapper_mode@,
        !m1.spec_config().wrapper_mode@.contains('\n'),
        !m2.spec_config().wrapper_mode@.contains('\n'),
    ensures
        m1.header_text() != m2.header_text(),
        m1.text() != m2.text(),
{
    reveal_strlit("\n");
    let s1 = m1.spec_config().wrapper_mode@;
    let s2 = m2.spec_config().wrapper_mode@;
    lemma_header_split(m1);
    lemma_header_split(m2);
    assert(after_wrapper(m1).len() > 0 && after_wrapper(m1)[0] == '\n');
    assert(after_wrapper(m2).len() > 0 && after_wrapper(m2)[0] == '\n');
    lemma_field_at(m1.header_text(), wrapper_prefix(m1), s1, after_wrapper(m1));
    lemma_field_at(m2.header_text(), wrapper_prefix(m2), s2, after_wrapper(m2));
    
    lemma_fields_differ(
        m1.header_text(),
        m2.header_text(),
        m1.declarations_text(m1.spec_functions().len()),
        m2.declarations_text(m2.spec_functions().len()),
        wrapper_prefix(m1).len() as int,
        s1,
        s2,
        '\n',
    );
}

/// The part of the header before the module's name.
pub open spec fn name_prefix(m: &Module) -> Seq<char> {
    let c = m.spec_config();
    wrapper_prefix(m) + c.wrapper_mode@ + "\n"@ + (if !c.disable_maybe {
        "-feature(maybe_expr, enable).\n"@
    } else {
        Seq::empty()
    }) + "-module("@
}

/// The header after the module's name.
pub open spec fn after_name() -> Seq<char> {
    ").\n"@ + "-compile([export_all])."@
}

/// A text made of a prefix, a field, and a rest that starts with `end`
/// holds the field right after the prefix and `end` after it.
proof fn lemma_field_before(h: Seq<char>, p: Seq<char>, f: Seq<char>, r: Seq<char>, end: char)
    requires
        h == p + f + r,
        r.len() > 0,
        r[0] == end,
    ensures
        h.len() > p.len() + f.len(),
        forall|i: int| 0 <= i < f.len() ==> h[p.len() + i] == #[trigger] f[i],
        h[(p.len() + f.len()) as int] == end,
{
}

/// Modules whose names differ (neither holding a closing parenthesis), and
/// that differ in nothing that comes before the name in the header, read
/// differently.
#[verifier::spinoff_prover]
#[verifier::rlimit(60)]
pub proof fn lemma_text_records_name(m1: &Module, m2: &Module)
    requires
        name_prefix(m1) == name_prefix(m2),
        m1.spec_module_name()@ != m2.spec_module_name()@,
        !m1.spec_module_name()@.contains(')'),
        !m2.spec_module_name()@.contains(')'),
    ensures
        m1.header_text() != m2.header_text(),
        m1.text() != m2.text(),
{
    reveal_strlit(").\n");
    let s1 = m1.spec_module_name()@;
    let s2 = m2.spec_module_name()@;
    assert(m1.header_text() =~= name_prefix(m1) + s1 + after_name());
    assert(m2.header_text() =~= name_prefix(m2) + s2 + after_name());
    assert(after_name().len() > 0 && after_name()[0] == ')');
    lemma_field_before(m1.header_text(), name_prefix(m1), s1, after_name(), ')');
    lemma_field_before(m2.header_text(), name_prefix(m2), s2, after_name(), ')');
    lemma_fields_differ(
        m1.header_text(),
        m2.header_text(),
        m1.declarations_text(m1.spec_functions().len()),
        m2.declarations_text(m2.spec_functions().len()),
        name_prefix(m1).len() as int,
        s1,
        s2,
        ')',
    );
}

} // verus!
