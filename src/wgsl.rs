//! WGSL text of the difficulty predicate, and the kernel source with that
//! text spliced in ahead of its template.

use vstd::prelude::*;
use vstd::string::*;
use crate::decimal::{decimal, push_decimal};
use crate::predicate::{ByteCheck, checks_for, difficulty_checks, MAX_DIFFICULTY_BITS};

verus! {

/// WGSL text of one check on the array `buf`.
pub open spec fn check_text(c: ByteCheck) -> Seq<char> {
    if c.shift == 0 {
        "buf["@ + decimal(c.index as nat) + "] == 0u"@
    } else {
        "(buf["@ + decimal(c.index as nat) + "] >> "@ + decimal(c.shift as nat) + "u) == 0u"@
    }
}

/// The checks of `cs` joined by ` && `.
pub open spec fn joined_checks(cs: Seq<ByteCheck>) -> Seq<char>
    decreases cs.len(),
{
    if cs.len() <= 1 {
        if cs.len() == 0 {
            Seq::empty()
        } else {
            check_text(cs[0])
        }
    } else {
        joined_checks(cs.drop_last()) + " && "@ + check_text(cs.last())
    }
}

/// WGSL boolean expression for a list of checks: `true` when it is empty.
pub open spec fn condition_text(cs: Seq<ByteCheck>) -> Seq<char> {
    if cs.len() == 0 {
        "true"@
    } else {
        joined_checks(cs)
    }
}

/// The WGSL function `check_difficulty` that returns `condition`.
pub open spec fn check_fn_text(condition: Seq<char>) -> Seq<char> {
    "\nfn check_difficulty(buf: ptr<function, array<u32, SHA256_BLOCK_SIZE>>) -> bool {\n    return "@
        + condition + ";\n}\n"@
}

/// Appends the WGSL text of one check to `out`.
fn push_check(out: &mut String, c: ByteCheck)
    requires
        c.index <= u32::MAX,
    ensures
        final(out)@ == old(out)@ + check_text(c),
{
    if c.shift == 0 {
        out.append("buf[");
        push_decimal(out, c.index as u64);
        out.append("] == 0u");
        assert(final(out)@ =~= old(out)@ + check_text(c));
    } else {
        out.append("(buf[");
        push_decimal(out, c.index as u64);
        out.append("] >> ");
        push_decimal(out, c.shift as u64);
        out.append("u) == 0u");
        assert(final(out)@ =~= old(out)@ + check_text(c));
    }
}

/// The WGSL boolean expression for `checks`: the checks joined by ` && `,
/// or `true` when there are none.
pub fn condition_wgsl(checks: &Vec<ByteCheck>) -> (r: String)
    requires
        forall|i: int| 0 <= i < checks@.len() ==> #[trigger] checks@[i].index <= u32::MAX,
    ensures
        r@ == condition_text(checks@),
{
    let mut out = String::new();
    if checks.len() == 0 {
        out.append("true");
        return out;
    }
    let mut i: usize = 0;
    while i < checks.len()
        invariant
            i <= checks@.len(),
            checks@.len() > 0,
            forall|k: int| 0 <= k < checks@.len() ==> #[trigger] checks@[k].index <= u32::MAX,
            out@ == joined_checks(checks@.subrange(0, i as int)),
        decreases checks@.len() - i,
    {
        let ghost before = out@;
        if i > 0 {
            out.append(" && ");
        }
        push_check(&mut out, checks[i]);
        proof {
            let ghost next = checks@.subrange(0, i + 1);
            assert(next.drop_last() =~= checks@.subrange(0, i as int));
            if i == 0 {
                assert(next.len() == 1);
                assert(out@ =~= joined_checks(next));
            } else {
                assert(out@ =~= joined_checks(next));
            }
        }
        i += 1;
    }
    assert(checks@.subrange(0, checks@.len() as int) =~= checks@);
    out
}

/// The WGSL function `check_difficulty` for `difficulty_bits`: it returns
/// true of a hash buffer exactly when its leading `difficulty_bits` bits are
/// zero, and is the constant `true` for a difficulty of zero.
pub fn generate_check_difficulty_wgsl(difficulty_bits: u32) -> (r: String)
    requires
        difficulty_bits <= MAX_DIFFICULTY_BITS,
    ensures
        r@ == check_fn_text(condition_text(checks_for(difficulty_bits as nat))),
{
    let checks = difficulty_checks(difficulty_bits);
    let condition = condition_wgsl(&checks);
    let mut out = String::new();
    out.append(
        "\nfn check_difficulty(buf: ptr<function, array<u32, SHA256_BLOCK_SIZE>>) -> bool {\n    return ",
    );
    out.append(condition.as_str());
    out.append(";\n}\n");
    assert(out@ =~= check_fn_text(condition_text(checks_for(difficulty_bits as nat))));
    out
}

/// `s` cut at each `\n`: one piece more than it has newlines.
pub open spec fn split_newlines(s: Seq<char>) -> Seq<Seq<char>>
    decreases s.len(),
{
    if s.len() == 0 {
        seq![Seq::empty()]
    } else {
        let p = split_newlines(s.drop_last());
        if s.last() == '\n' {
            p.push(Seq::empty())
        } else {
            p.update(p.len() - 1, p.last().push(s.last()))
        }
    }
}

/// `l` without one trailing `\r`.
pub open spec fn without_cr(l: Seq<char>) -> Seq<char> {
    if l.len() > 0 && l.last() == '\r' {
        l.drop_last()
    } else {
        l
    }
}

/// The lines of `s`: it is cut at each `\n`, a `\r` just before a `\n` is
/// dropped with it, and a final newline ends the last line rather than
/// starting an empty one. The empty text has no lines.
pub open spec fn text_lines(s: Seq<char>) -> Seq<Seq<char>> {
    if s.len() == 0 {
        Seq::empty()
    } else if s.last() == '\n' {
        split_newlines(s.drop_last()).map_values(|l: Seq<char>| without_cr(l))
    } else {
        let p = split_newlines(s);
        p.drop_last().map_values(|l: Seq<char>| without_cr(l)).push(p.last())
    }
}

/// `ls` with `\n` between consecutive lines.
pub open spec fn joined_lines(ls: Seq<Seq<char>>) -> Seq<char>
    decreases ls.len(),
{
    if ls.len() <= 1 {
        if ls.len() == 0 {
            Seq::empty()
        } else {
            ls[0]
        }
    } else {
        joined_lines(ls.drop_last()) + seq!['\n'] + ls.last()
    }
}

/// `ls` without its first line, if it has one.
pub open spec fn after_first(ls: Seq<Seq<char>>) -> Seq<Seq<char>> {
    if ls.len() == 0 {
        ls
    } else {
        ls.drop_first()
    }
}

/// The kernel source for `difficulty_bits` built from `template`.
pub open spec fn kernel_source_text(template: Seq<char>, difficulty_bits: nat) -> Seq<char> {
    joined_lines(
        text_lines(check_fn_text(condition_text(checks_for(difficulty_bits))))
            + after_first(text_lines(template)),
    )
}

/// Relies on `str::lines`: the lines of `s`, split at `\n` or `\r\n`, with
/// the final line ending optional.
#[verifier::external_body]
fn lines_of(s: &str) -> (r: Vec<String>)
    ensures
        r@.len() == text_lines(s@).len(),
        forall|i: int| 0 <= i < r@.len() ==> #[trigger] r@[i]@ == text_lines(s@)[i],
{
    s.lines().map(String::from).collect()
}

/// Appends `line` to `out`, which holds the lines `done` joined with `\n`.
fn append_line(out: &mut String, line: &str, first: bool, Ghost(done): Ghost<Seq<Seq<char>>>)
    requires
        old(out)@ == joined_lines(done),
        first <==> done.len() == 0,
    ensures
        final(out)@ == joined_lines(done.push(line@)),
{
    proof {
        reveal_strlit("\n");
    }
    if !first {
        out.append("\n");
    }
    out.append(line);
    assert(done.push(line@).drop_last() =~= done);
    assert(final(out)@ =~= joined_lines(done.push(line@)));
}

/// The kernel source: the first line of `template` (a placeholder) is
/// replaced by the lines of the generated `check_difficulty` function, and
/// all lines are joined with `\n`.
pub fn wgsl_source(template: &str, difficulty_bits: u32) -> (r: String)
    requires
        difficulty_bits <= MAX_DIFFICULTY_BITS,
    ensures
        r@ == kernel_source_text(template@, difficulty_bits as nat),
{
    let generated = generate_check_difficulty_wgsl(difficulty_bits);
    let head = lines_of(generated.as_str());
    let body = lines_of(template);
    let ghost head_lines = text_lines(generated@);
    let ghost tlines = text_lines(template@);
    let mut out = String::new();
    let mut k: usize = 0;
    assert(head_lines.subrange(0, 0) =~= Seq::<Seq<char>>::empty());
    while k < head.len()
        invariant
            k <= head@.len(),
            head@.len() == head_lines.len(),
            forall|i: int| 0 <= i < head@.len() ==> #[trigger] head@[i]@ == head_lines[i],
            out@ == joined_lines(head_lines.subrange(0, k as int)),
        decreases head@.len() - k,
    {
        append_line(&mut out, head[k].as_str(), k == 0, Ghost(head_lines.subrange(0, k as int)));
        assert(head_lines.subrange(0, k as int).push(head@[k as int]@) =~= head_lines.subrange(
            0,
            k + 1,
        ));
        k += 1;
    }
    assert(head_lines.subrange(0, k as int) =~= head_lines);
    let mut j: usize = 1;
    assert(head_lines + after_first(tlines).subrange(0, 0) =~= head_lines);
    while j < body.len()
        invariant
            1 <= j,
            j <= body@.len() || body@.len() == 0,
            body@.len() == 0 ==> j == 1,
            body@.len() == tlines.len(),
            forall|i: int| 0 <= i < body@.len() ==> #[trigger] body@[i]@ == tlines[i],
            out@ == joined_lines(head_lines + after_first(tlines).subrange(0, j - 1)),
            head@.len() == head_lines.len(),
        decreases body@.len() - j,
    {
        let ghost done = head_lines + after_first(tlines).subrange(0, j - 1);
        append_line(&mut out, body[j].as_str(), head.len() == 0 && j == 1, Ghost(done));
        assert(done.push(body@[j as int]@) =~= head_lines + after_first(tlines).subrange(0, j as int));
        j += 1;
    }
    if body.len() == 0 {
        assert(tlines.len() == 0);
        assert(after_first(tlines).len() == 0);
        assert(after_first(tlines).subrange(0, 0) =~= after_first(tlines));
        assert(head_lines + after_first(tlines).subrange(0, j - 1) =~= head_lines + after_first(tlines));
    } else {
        assert(j == body@.len());
        assert(after_first(tlines).len() == tlines.len() - 1);
        assert(after_first(tlines).subrange(0, j - 1) =~= after_first(tlines));
        assert(head_lines + after_first(tlines).subrange(0, j - 1) =~= head_lines + after_first(tlines));
    }
    assert(out@ == joined_lines(head_lines + after_first(tlines)));
    out
}

} // verus!
