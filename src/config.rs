//! Which providers and channels to fetch, and its text form: one `Key:Value`
//! pair per line.

use vstd::prelude::*;

verus! {

/// What is fetched: the global emotes of either provider, and the emotes of the
/// listed channels of each.
pub struct Config {
    pub global_ttv: bool,
    pub global_bttv: bool,
    pub ttv_channels: Vec<String>,
    pub bttv_channels: Vec<String>,
}

/// The characters of each string.
pub open spec fn texts(v: Seq<String>) -> Seq<Seq<char>> {
    v.map_values(|s: String| s@)
}

impl View for Config {
    type V = (bool, bool, Seq<Seq<char>>, Seq<Seq<char>>);

    open spec fn view(&self) -> (bool, bool, Seq<Seq<char>>, Seq<Seq<char>>) {
        (self.global_ttv, self.global_bttv, texts(self.ttv_channels@), texts(self.bttv_channels@))
    }
}

/// The key of a line: what stands before its first colon, or the whole line.
pub open spec fn key_part(line: Seq<char>) -> Seq<char>
    decreases line.len(),
{
    if line.len() == 0 {
        line
    } else if line[0] == ':' {
        Seq::empty()
    } else {
        seq![line[0]] + key_part(line.drop_first())
    }
}

/// The value of a line: what stands after its last colon, or the whole line.
pub open spec fn value_part(line: Seq<char>) -> Seq<char>
    decreases line.len(),
{
    if line.len() == 0 {
        line
    } else if line.last() == ':' {
        Seq::empty()
    } else {
        value_part(line.drop_last()).push(line.last())
    }
}

/// What one line does to a configuration, and the key that it reports as
/// unknown, if any. An empty key is ignored without a report.
pub open spec fn line_effect(
    c: (bool, bool, Seq<Seq<char>>, Seq<Seq<char>>),
    line: Seq<char>,
) -> ((bool, bool, Seq<Seq<char>>, Seq<Seq<char>>), Option<Seq<char>>) {
    let key = key_part(line);
    let value = value_part(line);
    if key == "TTV-Global"@ {
        ((value == "true"@, c.1, c.2, c.3), None)
    } else if key == "TTV-Channel"@ {
        ((c.0, c.1, c.2.push(value), c.3), None)
    } else if key == "BTTV-Global"@ {
        ((c.0, value == "true"@, c.2, c.3), None)
    } else if key == "BTTV-Channel"@ {
        ((c.0, c.1, c.2, c.3.push(value)), None)
    } else if key.len() == 0 {
        (c, None)
    } else {
        (c, Some(key))
    }
}

/// A line without the carriage return that may end it.
pub open spec fn strip_cr(line: Seq<char>) -> Seq<char> {
    if line.len() > 0 && line.last() == '\r' {
        line.drop_last()
    } else {
        line
    }
}

/// The pieces of a text between its line breaks; the last may be empty.
pub open spec fn lines_of(text: Seq<char>) -> Seq<Seq<char>>
    decreases text.len(),
{
    if text.len() == 0 {
        seq![Seq::empty()]
    } else if text.last() == '\n' {
        lines_of(text.drop_last()).push(Seq::empty())
    } else {
        let p = lines_of(text.drop_last());
        p.update(p.len() - 1, p.last().push(text.last()))
    }
}

/// A configuration after reading `lines` in order, and the unknown keys met.
pub open spec fn read_lines(
    c: (bool, bool, Seq<Seq<char>>, Seq<Seq<char>>),
    lines: Seq<Seq<char>>,
) -> ((bool, bool, Seq<Seq<char>>, Seq<Seq<char>>), Seq<Seq<char>>)
    decreases lines.len(),
{
    if lines.len() == 0 {
        (c, Seq::empty())
    } else {
        let (c1, w1) = read_lines(c, lines.drop_last());
        let (c2, w) = line_effect(c1, strip_cr(lines.last()));
        (
            c2,
            match w {
                Some(k) => w1.push(k),
                None => w1,
            },
        )
    }
}

proof fn lemma_texts_push(v: Seq<String>, s: String)
    ensures
        texts(v.push(s)) == texts(v).push(s@),
{
    assert(texts(v.push(s)) =~= texts(v).push(s@));
}

proof fn lemma_lines_nonempty(text: Seq<char>)
    ensures
        lines_of(text).len() >= 1,
    decreases text.len(),
{
    if text.len() > 0 {
        lemma_lines_nonempty(text.drop_last());
    }
}

/// The key of a line.
pub fn key_of(line: &str) -> (r: String)
    ensures
        r@ == key_part(line@),
{
    let n = line.unicode_len();
    let mut i: usize = 0;
    assert(line@.skip(0) =~= line@);
    while i < n && line.get_char(i) != ':'
        invariant
            i <= n,
            n == line@.len(),
            key_part(line@) == line@.subrange(0, i as int) + key_part(line@.skip(i as int)),
        decreases n - i,
    {
        proof {
            let rest = line@.skip(i as int);
            assert(rest.drop_first() =~= line@.skip(i + 1));
            assert(line@.subrange(0, i as int) + (seq![rest[0]] + key_part(rest.drop_first()))
                =~= line@.subrange(0, i + 1) + key_part(line@.skip(i + 1)));
        }
        i += 1;
    }
    proof {
        if i == n {
            assert(line@.subrange(0, i as int) =~= line@);
        }
        assert(line@.subrange(0, i as int) + key_part(line@.skip(i as int)) =~= line@.subrange(
            0,
            i as int,
        ));
    }
    String::from_str(line.substring_char(0, i))
}

/// The value of a line.
pub fn value_of(line: &str) -> (r: String)
    ensures
        r@ == value_part(line@),
{
    let n = line.unicode_len();
    let mut j: usize = n;
    assert(line@.subrange(0, n as int) =~= line@);
    assert(line@ =~= line@ + line@.subrange(n as int, n as int));
    while j > 0 && line.get_char(j - 1) != ':'
        invariant
            j <= n,
            n == line@.len(),
            value_part(line@) == value_part(line@.subrange(0, j as int)) + line@.subrange(
                j as int,
                n as int,
            ),
        decreases j,
    {
        proof {
            let front = line@.subrange(0, j as int);
            assert(front.drop_last() =~= line@.subrange(0, j - 1));
            assert(value_part(front.drop_last()).push(front.last()) + line@.subrange(j as int, n as int)
                =~= value_part(line@.subrange(0, j - 1)) + line@.subrange(j - 1, n as int));
        }
        j -= 1;
    }
    proof {
        assert(value_part(line@.subrange(0, j as int)) =~= Seq::<char>::empty());
        assert(value_part(line@.subrange(0, j as int)) + line@.subrange(j as int, n as int)
            =~= line@.subrange(j as int, n as int));
    }
    String::from_str(line.substring_char(j, n))
}

/// A line without the carriage return that may end it.
pub fn strip_cr_of(line: &str) -> (r: &str)
    ensures
        r@ == strip_cr(line@),
{
    let n = line.unicode_len();
    if n > 0 && line.get_char(n - 1) == '\r' {
        line.substring_char(0, n - 1)
    } else {
        line
    }
}

/// `true` or `false`.
pub open spec fn bool_text(b: bool) -> Seq<char> {
    if b {
        "true"@
    } else {
        "false"@
    }
}

/// One line `<key><channel>` for each channel, in order.
pub open spec fn channel_lines(key: Seq<char>, channels: Seq<Seq<char>>) -> Seq<char>
    decreases channels.len(),
{
    if channels.len() == 0 {
        Seq::empty()
    } else {
        channel_lines(key, channels.drop_last()) + key + channels.last() + "\n"@
    }
}

/// The text form of a configuration: the primary provider's lines, then the
/// secondary provider's.
pub open spec fn config_text(c: (bool, bool, Seq<Seq<char>>, Seq<Seq<char>>)) -> Seq<char> {
    "TTV-Global:"@ + bool_text(c.0) + "\n"@ + channel_lines("TTV-Channel:"@, c.2) + "BTTV-Global:"@
        + bool_text(c.1) + "\n"@ + channel_lines("BTTV-Channel:"@, c.3)
}

fn bool_str(b: bool) -> (r: &'static str)
    ensures
        r@ == bool_text(b),
{
    if b {
        "true"
    } else {
        "false"
    }
}

/// Appends one line `<key><channel>` per channel to `out`.
fn write_channels(out: &mut String, key: &str, channels: &Vec<String>)
    ensures
        final(out)@ == old(out)@ + channel_lines(key@, texts(channels@)),
{
    let mut i: usize = 0;
    assert(texts(channels@.subrange(0, 0)) =~= Seq::<Seq<char>>::empty());
    assert(old(out)@ + Seq::<char>::empty() =~= old(out)@);
    while i < channels.len()
        invariant
            i <= channels@.len(),
            out@ == old(out)@ + channel_lines(key@, texts(channels@.subrange(0, i as int))),
        decreases channels.len() - i,
    {
        proof {
            let t = texts(channels@.subrange(0, i + 1));
            assert(t.drop_last() =~= texts(channels@.subrange(0, i as int)));
            assert(t.last() == channels@[i as int]@);
        }
        out.append(key);
        out.append(channels[i].as_str());
        out.append("\n");
        proof {
            let t = texts(channels@.subrange(0, i + 1));
            assert(out@ =~= old(out)@ + channel_lines(key@, t));
        }
        i += 1;
    }
    assert(channels@.subrange(0, i as int) =~= channels@);
}

impl Config {
    /// Nothing to fetch.
    pub fn new() -> (r: Config)
        ensures
            r@ == (false, false, Seq::<Seq<char>>::empty(), Seq::<Seq<char>>::empty()),
    {
        let r = Config {
            global_ttv: false,
            global_bttv: false,
            ttv_channels: Vec::new(),
            bttv_channels: Vec::new(),
        };
        assert(r@.2 =~= Seq::<Seq<char>>::empty());
        assert(r@.3 =~= Seq::<Seq<char>>::empty());
        r
    }

    /// Reads one `Key:Value` line; returns the key when it is not known.
    pub fn apply_line(&mut self, line: &str) -> (r: Option<String>)
        ensures
            final(self)@ == line_effect(old(self)@, line@).0,
            match r {
                Some(k) => line_effect(old(self)@, line@).1 == Some(k@),
                None => line_effect(old(self)@, line@).1 is None,
            },
    {
        let key = key_of(line);
        let value = value_of(line);
        if key == String::from_str("TTV-Global") {
            self.global_ttv = value == String::from_str("true");
            None
        } else if key == String::from_str("TTV-Channel") {
            proof {
                lemma_texts_push(self.ttv_channels@, value);
            }
            self.ttv_channels.push(value);
            None
        } else if key == String::from_str("BTTV-Global") {
            self.global_bttv = value == String::from_str("true");
            None
        } else if key == String::from_str("BTTV-Channel") {
            proof {
                lemma_texts_push(self.bttv_channels@, value);
            }
            self.bttv_channels.push(value);
            None
        } else if key.as_str().unicode_len() == 0 {
            None
        } else {
            Some(key)
        }
    }

    /// The text form of the configuration, as `read_from_text` reads it.
    pub fn to_text(&self) -> (r: String)
        ensures
            r@ == config_text(self@),
    {
        let mut out = String::from_str("TTV-Global:");
        out.append(bool_str(self.global_ttv));
        out.append("\n");
        write_channels(&mut out, "TTV-Channel:", &self.ttv_channels);
        out.append("BTTV-Global:");
        out.append(bool_str(self.global_bttv));
        out.append("\n");
        write_channels(&mut out, "BTTV-Channel:", &self.bttv_channels);
        assert(out@ =~= config_text(self@));
        out
    }

    /// Reads a configuration text line by line, in order; returns the unknown
    /// keys met, in order.
    pub fn read_from_text(&mut self, text: &str) -> (r: Vec<String>)
        ensures
            (final(self)@, texts(r@)) == read_lines(old(self)@, lines_of(text@)),
    {
        let n = text.unicode_len();
        let mut warns: Vec<String> = Vec::new();
        let mut start: usize = 0;
        let mut i: usize = 0;
        proof {
            assert(text@.subrange(0, 0) =~= Seq::<char>::empty());
            assert(texts(warns@) =~= Seq::<Seq<char>>::empty());
            assert(lines_of(Seq::<char>::empty()).drop_last() =~= Seq::<Seq<char>>::empty());
        }
        while i < n
            invariant
                start <= i <= n,
                n == text@.len(),
                lines_of(text@.subrange(0, i as int)).last() == text@.subrange(start as int, i as int),
                (self@, texts(warns@)) == read_lines(
                    old(self)@,
                    lines_of(text@.subrange(0, i as int)).drop_last(),
                ),
            decreases n - i,
        {
            let ghost before = text@.subrange(0, i as int);
            let ghost after = text@.subrange(0, i + 1);
            proof {
                assert(after.drop_last() =~= before);
                lemma_lines_nonempty(before);
            }
            let c = text.get_char(i);
            if c == '\n' {
                let line = strip_cr_of(text.substring_char(start, i));
                let w = self.apply_line(line);
                match w {
                    Some(k) => {
                        proof {
                            lemma_texts_push(warns@, k);
                        }
                        warns.push(k);
                    },
                    None => {},
                }
                proof {
                    assert(lines_of(after).drop_last() =~= lines_of(before));
                    assert(text@.subrange(i + 1, i + 1) =~= Seq::<char>::empty());
                }
                start = i + 1;
            } else {
                proof {
                    assert(lines_of(after).drop_last() =~= lines_of(before).drop_last());
                    assert(text@.subrange(start as int, i + 1) =~= text@.subrange(
                        start as int,
                        i as int,
                    ).push(c));
                }
            }
            i += 1;
        }
        proof {
            assert(text@.subrange(0, n as int) =~= text@);
            lemma_lines_nonempty(text@);
        }
        let line = strip_cr_of(text.substring_char(start, n));
        let w = self.apply_line(line);
        match w {
            Some(k) => {
                proof {
                    lemma_texts_push(warns@, k);
                }
                warns.push(k);
            },
            None => {},
        }
        proof {
            let ls = lines_of(text@);
            assert(ls.drop_last().push(ls.last()) =~= ls);
        }
        warns
    }
}

} // verus!
