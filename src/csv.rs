use vstd::prelude::*;

verus! {

/// The text of each string of a sequence.
pub open spec fn texts(v: Seq<String>) -> Seq<Seq<char>> {
    v.map_values(|s: String| s@)
}

/// The parts written one after the other with `sep` between two neighbours.
pub open spec fn join(parts: Seq<Seq<char>>, sep: Seq<char>) -> Seq<char>
    decreases parts.len(),
{
    if parts.len() == 0 {
        seq![]
    } else if parts.len() == 1 {
        parts[0]
    } else {
        join(parts.drop_last(), sep) + sep + parts.last()
    }
}

/// The header line followed by one line per row, each line's cells joined
/// by `delim` and the lines joined by a newline.
pub open spec fn csv_text(headers: Seq<Seq<char>>, rows: Seq<Seq<Seq<char>>>, delim: Seq<char>) -> Seq<char>
    decreases rows.len(),
{
    if rows.len() == 0 {
        join(headers, delim)
    } else {
        csv_text(headers, rows.drop_last(), delim) + seq!['\n'] + join(rows.last(), delim)
    }
}

/// A table of text cells under a header line; every row has as many cells
/// as the header.
#[derive(Debug, Clone)]
pub struct CSV {
    headers: Vec<String>,
    data: Vec<Vec<String>>,
}

/// The error of a table operation, with its message.
#[derive(Debug)]
pub struct CSVErr {
    message: String,
}

impl CSVErr {
    pub closed spec fn message_spec(&self) -> Seq<char> {
        self.message@
    }

    /// The message of the error.
    pub fn to_string(&self) -> (r: String)
        ensures
            r@ == self.message_spec(),
    {
        self.message.clone()
    }
}

impl View for CSV {
    /// The header cells and the rows' cells.
    type V = (Seq<Seq<char>>, Seq<Seq<Seq<char>>>);

    closed spec fn view(&self) -> Self::V {
        (texts(self.headers@), self.data@.map_values(|l: Vec<String>| texts(l@)))
    }
}

impl CSV {
    /// Every row has as many cells as the header.
    pub open spec fn wf(&self) -> bool {
        forall|i: int| 0 <= i < self@.1.len() ==> #[trigger] self@.1[i].len() == self@.0.len()
    }

    pub fn new(headers: Vec<String>) -> (r: CSV)
        ensures
            r@.0 == texts(headers@),
            r@.1.len() == 0,
            r.wf(),
    {
        let data: Vec<Vec<String>> = Vec::new();
        CSV { headers, data }
    }

    /// Appends a row; fails, and leaves the table as it was, when the row
    /// does not have as many cells as the header.
    pub fn add_line(&mut self, line: Vec<String>) -> (r: Result<(), CSVErr>)
        requires
            old(self).wf(),
        ensures
            r is Err <==> line@.len() != old(self)@.0.len(),
            r is Err ==> final(self)@ == old(self)@ && r->Err_0.message_spec() == "invalid csv data"@,
            r is Ok ==> final(self)@ == (old(self)@.0, old(self)@.1.push(texts(line@))),
            final(self).wf(),
    {
        if line.len() != self.headers.len() {
            proof {
                reveal_strlit("invalid csv data");
            }
            return Err(CSVErr { message: String::from_str("invalid csv data") });
        }
        self.data.push(line);
        proof {
            assert(self@.1 =~= old(self)@.1.push(texts(line@)));
        }
        Ok(())
    }

    /// Appends the table's text to `buffer`: the header line, then each row
    /// in order, cells joined by `delimeter`, lines by a newline.
    pub fn write(&self, buffer: &mut String, delimeter: &str)
        ensures
            final(buffer)@ == old(buffer)@ + csv_text(self@.0, self@.1, delimeter@),
    {
        push_joined(buffer, &self.headers, delimeter);
        let mut i: usize = 0;
        while i < self.data.len()
            invariant
                0 <= i <= self.data@.len(),
                buffer@ == old(buffer)@ + csv_text(self@.0, self@.1.take(i as int), delimeter@),
            decreases self.data@.len() - i,
        {
            proof {
                assert(self@.1.take(i as int + 1).drop_last() =~= self@.1.take(i as int));
            }
            let lit = "\n";
            proof {
                reveal_strlit("\n");
            }
            buffer.append(lit);
            push_joined(buffer, &self.data[i], delimeter);
            proof {
                assert(self@.1.take(i as int + 1).last() == texts(self.data@[i as int]@));
            }
            i += 1;
        }
        proof {
            assert(self@.1.take(i as int) =~= self@.1);
        }
    }
}

/// Appends the strings of `parts` with `sep` between two neighbours.
fn push_joined(out: &mut String, parts: &Vec<String>, sep: &str)
    ensures
        final(out)@ == old(out)@ + join(texts(parts@), sep@),
{
    let mut i: usize = 0;
    while i < parts.len()
        invariant
            0 <= i <= parts@.len(),
            out@ == old(out)@ + join(texts(parts@).take(i as int), sep@),
        decreases parts@.len() - i,
    {
        proof {
            assert(texts(parts@).take(i as int + 1).drop_last() =~= texts(parts@).take(i as int));
        }
        if i > 0 {
            out.append(sep);
        }
        out.append(parts[i].as_str());
        i += 1;
    }
    proof {
        assert(texts(parts@).take(i as int) =~= texts(parts@));
    }
}

} // verus!
