//! A writer that hands out an indented copy of itself: the copy reborrows
//! the target for as long as the copy lives, so the original is usable
//! again once the copy is gone.
use vstd::prelude::*;

verus! {

/// `n` spaces.
pub open spec fn spaces(n: nat) -> Seq<char> {
    Seq::new(n, |i: int| ' ')
}

/// The line that a writer indented by `indent` appends for `s`.
pub open spec fn indented_line(indent: nat, s: Seq<char>) -> Seq<char> {
    spaces(indent) + s + seq!['\n']
}

/// The line for `s` at indent `n` is `n` spaces, then the whole of `s`,
/// then one line break, and nothing else.
pub proof fn law_indented_line(n: nat, s: Seq<char>)
    ensures
        indented_line(n, s).len() == n + s.len() + 1,
        forall|i: int| 0 <= i < n ==> #[trigger] indented_line(n, s)[i] == ' ',
        indented_line(n, s).subrange(n as int, (n + s.len()) as int) == s,
        indented_line(n, s).last() == '\n',
{
    assert(indented_line(n, s).subrange(n as int, (n + s.len()) as int) =~= s);
}

/// Appends indented lines to a borrowed string.
pub struct Writer<'a> {
    pub target: &'a mut String,
    pub indent: usize,
}

impl Writer<'_> {
    /// A writer one level deeper that writes to the same string.
    pub fn indent(&mut self) -> (w: Writer)
        requires
            old(self).indent < usize::MAX,
        ensures
            w.indent == old(self).indent + 1,
            w.target@ == old(self).target@,
            final(self).target@ == final(w.target)@,
            final(self).indent == old(self).indent,
            *final(final(self).target) == *final(old(self).target),
    {
        Writer { target: self.target, indent: self.indent + 1 }
    }

    /// Appends `indent` spaces, `s` and a line break.
    pub fn write(&mut self, s: &str)
        ensures
            final(self).target@ == old(self).target@ + indented_line(old(self).indent as nat, s@),
            final(self).indent == old(self).indent,
            *final(final(self).target) == *final(old(self).target),
    {
        let mut i: usize = 0;
        while i < self.indent
            invariant
                i <= self.indent,
                self.indent == old(self).indent,
                self.target@ == old(self).target@ + spaces(i as nat),
                *final(self.target) == *final(old(self).target),
            decreases self.indent - i,
        {
            self.target.append(" ");
            proof {
                reveal_strlit(" ");
            }
            i += 1;
            assert(self.target@ =~= old(self).target@ + spaces(i as nat));
        }
        self.target.append(s);
        self.target.append("\n");
        proof {
            reveal_strlit("\n");
        }
        assert(self.target@ =~= old(self).target@ + indented_line(self.indent as nat, s@));
    }
}

/// Writes "hello" one level deeper than `writer`, then "world" at its own
/// level.
pub fn bar(writer: &mut Writer)
    requires
        old(writer).indent < usize::MAX,
    ensures
        final(writer).target@ == old(writer).target@ + indented_line(
            (old(writer).indent + 1) as nat,
            "hello"@,
        ) + indented_line(old(writer).indent as nat, "world"@),
        final(writer).indent == old(writer).indent,
        *final(final(writer).target) == *final(old(writer).target),
{
    baz(&mut writer.indent());
    writer.write("world");
}

/// Writes "hello" at the level of `writer`.
pub fn baz(writer: &mut Writer)
    ensures
        final(writer).target@ == old(writer).target@ + indented_line(
            old(writer).indent as nat,
            "hello"@,
        ),
        final(writer).indent == old(writer).indent,
        *final(final(writer).target) == *final(old(writer).target),
{
    writer.write("hello");
}

} // verus!
