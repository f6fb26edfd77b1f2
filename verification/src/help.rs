//! Help-screen formatting: one aligned line per command-line option, under
//! a usage line and a description.

use vstd::prelude::*;

verus! {

/// A sequence of `n` spaces.
pub open spec fn spaces(n: nat) -> Seq<char> {
    Seq::new(n, |i: int| ' ')
}

/// Minimum-width left alignment: the string padded with spaces on the right
/// up to `w` characters; a string already that wide is unchanged.
pub open spec fn pad_min(s: Seq<char>, w: nat) -> Seq<char> {
    if s.len() >= w {
        s
    } else {
        s + spaces((w - s.len()) as nat)
    }
}

/// Pad a string on the right with spaces until it is at least `w`
/// characters wide.
fn pad_to(s: String, w: usize) -> (r: String)
    ensures
        r@ == pad_min(s@, w as nat),
{
    let ghost orig = s@;
    let mut r = s;
    let n = r.as_str().unicode_len();
    if n >= w {
        return r;
    }
    let mut i: usize = n;
    proof {
        assert(orig + spaces(0) =~= orig);
    }
    while i < w
        invariant
            n == orig.len(),
            n <= i <= w,
            r@ == orig + spaces((i - n) as nat),
        decreases w - i,
    {
        r.append(" ");
        proof {
            reveal_strlit(" ");
            assert(orig + spaces((i - n) as nat) + " "@ =~= orig + spaces((i + 1 - n) as nat));
        }
        i += 1;
    }
    r
}

/// Help Option Entry.
#[derive(Debug, Clone)]
pub struct OptionEntry {
    /// Short name.
    short: String,
    /// Long name.
    long: String,
    /// Extra info.
    extra: String,
    /// Description.
    description: String,
}

impl OptionEntry {
    /// The short name.
    pub closed spec fn short_view(&self) -> Seq<char> {
        self.short@
    }

    /// The long name.
    pub closed spec fn long_view(&self) -> Seq<char> {
        self.long@
    }

    /// The extra info.
    pub closed spec fn extra_view(&self) -> Seq<char> {
        self.extra@
    }

    /// The description.
    pub closed spec fn description_view(&self) -> Seq<char> {
        self.description@
    }

    /// Generate a new `OptionEntry` object.
    pub fn new(short: &str, long: &str, extra: &str, description: &str) -> (r: Self)
        ensures
            r.short_view() == short@,
            r.long_view() == long@,
            r.extra_view() == extra@,
            r.description_view() == description@,
    {
        Self {
            short: short.to_owned(),
            long: long.to_owned(),
            extra: extra.to_owned(),
            description: description.to_owned(),
        }
    }

    /// Renders the entry as one line of a help screen.
    pub fn render(&self) -> (r: String)
        ensures
            r@ == entry_line(*self),
    {
        let short_p: String = if !self.short.as_str().is_empty() {
            let mut t = "-".to_owned();
            t.append(self.short.as_str());
            if !self.long.as_str().is_empty() {
                t.append(",");
            }
            t
        } else {
            String::new()
        };
        let long_p: String = if !self.long.as_str().is_empty() {
            let mut t = "--".to_owned();
            let padded = pad_to(self.long.clone(), 10);
            t.append(padded.as_str());
            t.append(" ");
            t.append(self.extra.as_str());
            t
        } else {
            let mut t = "            ".to_owned();
            t.append(self.extra.as_str());
            t
        };
        let mut line = "  ".to_owned();
        let sp = pad_to(short_p, 4);
        line.append(sp.as_str());
        let lp = pad_to(long_p, 27);
        line.append(lp.as_str());
        line.append(" ");
        line.append(self.description.as_str());
        line
    }
}

/// The short-name column of a help line: `-s,` when a long name follows,
/// `-s` when none does, and empty when there is no short name.
pub open spec fn short_part(e: OptionEntry) -> Seq<char> {
    if e.short_view().len() > 0 {
        if e.long_view().len() > 0 {
            "-"@ + e.short_view() + ","@
        } else {
            "-"@ + e.short_view()
        }
    } else {
        Seq::empty()
    }
}

/// The long-name column of a help line: the long name aligned to ten
/// characters behind two dashes and followed by the extra info, or, with no
/// long name, the extra info behind twelve spaces.
pub open spec fn long_part(e: OptionEntry) -> Seq<char> {
    if e.long_view().len() > 0 {
        "--"@ + pad_min(e.long_view(), 10) + " "@ + e.extra_view()
    } else {
        "            "@ + e.extra_view()
    }
}

/// The rendered help line of one option entry: the short column aligned to
/// four characters, the long column aligned to twenty-seven, and the
/// description, behind a two-space indent.
pub open spec fn entry_line(e: OptionEntry) -> Seq<char> {
    "  "@ + pad_min(short_part(e), 4) + pad_min(long_part(e), 27) + " "@ + e.description_view()
}

/// Help Display.
#[derive(Debug, Clone)]
pub struct HelpDisplay {
    /// Usage.
    usage: String,
    /// Description.
    description: String,
    /// Entries.
    entries: Vec<OptionEntry>,
}

/// The rendered lines of a sequence of option entries, each ended by a
/// newline.
pub open spec fn help_lines(entries: Seq<OptionEntry>) -> Seq<char>
    decreases entries.len(),
{
    if entries.len() == 0 {
        Seq::empty()
    } else {
        help_lines(entries.drop_last()) + entry_line(entries.last()) + "\n"@
    }
}

/// The full rendered help text: the usage line, the description, a blank
/// line, one line per option entry, and a final blank line.
pub open spec fn help_text(h: HelpDisplay) -> Seq<char> {
    "Usage: "@ + h.usage_view() + "\n"@ + h.description_view() + "\n\n"@
        + help_lines(h.entries_view()) + "\n"@
}

impl HelpDisplay {
    /// The usage string.
    pub closed spec fn usage_view(&self) -> Seq<char> {
        self.usage@
    }

    /// The description string.
    pub closed spec fn description_view(&self) -> Seq<char> {
        self.description@
    }

    /// The option entries, in insertion order.
    pub closed spec fn entries_view(&self) -> Seq<OptionEntry> {
        self.entries@
    }

    /// Generate a new `HelpDisplay` object from the usage string and the
    /// description string.
    pub fn new(usage: &str, description: &str) -> (r: Self)
        ensures
            r.usage_view() == usage@,
            r.description_view() == description@,
            r.entries_view() == Seq::<OptionEntry>::empty(),
    {
        Self { usage: usage.to_owned(), description: description.to_owned(), entries: Vec::new() }
    }

    /// Add another command line option.
    pub fn add_option(&mut self, entry: OptionEntry)
        ensures
            final(self).usage_view() == old(self).usage_view(),
            final(self).description_view() == old(self).description_view(),
            final(self).entries_view() == old(self).entries_view().push(entry),
    {
        self.entries.push(entry);
    }

    /// Renders the help display as its full text.
    pub fn render(&self) -> (r: String)
        ensures
            r@ == help_text(*self),
    {
        let mut r = "Usage: ".to_owned();
        r.append(self.usage.as_str());
        r.append("\n");
        r.append(self.description.as_str());
        r.append("\n\n");
        let ghost head = r@;
        let mut i: usize = 0;
        proof {
            assert(help_lines(self.entries_view().take(0)) =~= Seq::<char>::empty());
            assert(head + Seq::<char>::empty() =~= head);
        }
        while i < self.entries.len()
            invariant
                i <= self.entries.len(),
                r@ == head + help_lines(self.entries_view().take(i as int)),
                self.entries_view() == self.entries@,
            decreases self.entries.len() - i,
        {
            proof {
                assert(self.entries_view().take(i as int + 1).drop_last()
                    =~= self.entries_view().take(i as int));
                assert(self.entries_view().take(i as int + 1).last() == self.entries_view()[i as int]);
            }
            let e = &self.entries[i];
            let line = e.render();
            r.append(line.as_str());
            r.append("\n");
            i += 1;
        }
        proof {
            assert(self.entries_view().take(self.entries@.len() as int) =~= self.entries_view());
        }
        r.append("\n");
        r
    }
}

} // verus!
