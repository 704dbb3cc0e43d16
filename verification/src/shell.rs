//! The shell's input-line state: a fixed 80-byte buffer and its fill.
//!
//! The console loop around it (reading characters, printing the
//! prompt, running commands) performs I/O and lives outside; the
//! buffer discipline — append until full, reset on overflow or after a
//! command — is what this module fixes.

use vstd::prelude::*;

verus! {

/// Capacity of the input line.
pub const LINE_MAX: usize = 80;

/// The shell's input line.
pub struct Shell {
    buffer: Vec<u8>,
    size: usize,
}

impl Shell {
    /// The bytes typed so far.
    pub closed spec fn line(&self) -> Seq<u8> {
        self.buffer@.take(self.size as int)
    }

    /// The buffer is full-sized and the fill cursor within it.
    pub closed spec fn wf(&self) -> bool {
        &&& self.buffer@.len() == LINE_MAX
        &&& self.size <= LINE_MAX
    }

    /// How many bytes are typed.
    pub fn len(&self) -> (r: usize)
        requires
            self.wf(),
        ensures
            r == self.line().len(),
    {
        self.size
    }

    /// Whether the line is at capacity (the console loop then resets
    /// and warns).
    pub fn is_full(&self) -> (r: bool)
        requires
            self.wf(),
        ensures
            r <==> self.line().len() == LINE_MAX,
    {
        self.size == LINE_MAX
    }

    /// Append one typed byte; refused (buffer untouched) when full.
    pub fn push_char(&mut self, c: u8) -> (r: bool)
        requires
            old(self).wf(),
        ensures
            final(self).wf(),
            r <==> old(self).line().len() < LINE_MAX,
            r ==> final(self).line() == old(self).line().push(c),
            !r ==> final(self).line() == old(self).line(),
    {
        if self.size < LINE_MAX {
            let i = self.size;
            self.buffer[i] = c;
            self.size = i + 1;
            proof {
                assert(self.line() =~= old(self).line().push(c));
            }
            true
        } else {
            false
        }
    }

    /// Clear the line.
    pub fn reset(&mut self)
        ensures
            final(self).wf(),
            final(self).line() == Seq::<u8>::empty(),
    {
        let buffer: Vec<u8> = vec![0u8; LINE_MAX];
        self.buffer = buffer;
        self.size = 0;
        proof {
            assert(self.line() =~= Seq::<u8>::empty());
        }
    }

    /// A copy of the typed bytes, for the command runner.
    pub fn contents(&self) -> (r: Vec<u8>)
        requires
            self.wf(),
        ensures
            r@ == self.line(),
    {
        let mut r: Vec<u8> = Vec::new();
        let mut i: usize = 0;
        while i < self.size
            invariant
                self.wf(),
                i <= self.size,
                r@.len() == i,
                forall|k: int| 0 <= k < i ==> r@[k] == self.buffer@[k],
            decreases self.size - i,
        {
            let b = self.buffer[i];
            r.push(b);
            i = i + 1;
        }
        proof {
            assert(r@ =~= self.line());
        }
        r
    }
}

/// A parsed command line.
#[derive(PartialEq, Eq, Debug)]
pub enum Command {
    /// Greet.
    Hello,
    /// Leave the shell.
    Exit,
    /// Read the named file (the bytes of the second word).
    ReadFile(Vec<u8>),
    /// Anything else: ask the user to try again.
    Invalid,
}

/// ASCII whitespace as the tokenizer splits on it.
pub open spec fn is_space(b: u8) -> bool {
    b == 32 || b == 9 || b == 10 || b == 13
}

/// First non-space position at or after `i` (the length if none).
pub open spec fn skip_spaces(s: Seq<u8>, i: int) -> int
    decreases s.len() - i,
{
    if i < 0 || i >= s.len() {
        s.len() as int
    } else if is_space(s[i]) {
        skip_spaces(s, i + 1)
    } else {
        i
    }
}

/// First space position at or after `i` (the length if none).
pub open spec fn token_end(s: Seq<u8>, i: int) -> int
    decreases s.len() - i,
{
    if i < 0 || i >= s.len() {
        s.len() as int
    } else if !is_space(s[i]) {
        token_end(s, i + 1)
    } else {
        i
    }
}

/// The bytes of "hello".
pub open spec fn hello_bytes() -> Seq<u8> {
    seq![104u8, 101u8, 108u8, 108u8, 111u8]
}

/// The bytes of "exit".
pub open spec fn exit_bytes() -> Seq<u8> {
    seq![101u8, 120u8, 105u8, 116u8]
}

/// The bytes of "read".
pub open spec fn read_bytes() -> Seq<u8> {
    seq![114u8, 101u8, 97u8, 100u8]
}

proof fn lemma_skip_spaces_range(s: Seq<u8>, i: int)
    requires
        0 <= i <= s.len(),
    ensures
        i <= skip_spaces(s, i) <= s.len(),
        skip_spaces(s, i) < s.len() ==> !is_space(s[skip_spaces(s, i)]),
    decreases s.len() - i,
{
    if i < s.len() && is_space(s[i]) {
        lemma_skip_spaces_range(s, i + 1);
    }
}

proof fn lemma_token_end_range(s: Seq<u8>, i: int)
    requires
        0 <= i <= s.len(),
    ensures
        i <= token_end(s, i) <= s.len(),
    decreases s.len() - i,
{
    if i < s.len() && !is_space(s[i]) {
        lemma_token_end_range(s, i + 1);
    }
}

/// First non-space position in `line` at or after `from`.
fn skip_spaces_from(line: &Vec<u8>, from: usize) -> (r: usize)
    requires
        from <= line@.len(),
    ensures
        r as int == skip_spaces(line@, from as int),
        from <= r <= line@.len(),
{
    proof {
        lemma_skip_spaces_range(line@, from as int);
    }
    let mut i = from;
    while i < line.len() && is_space_exec(line[i])
        invariant
            from <= i <= line@.len(),
            skip_spaces(line@, from as int) == skip_spaces(line@, i as int),
        decreases line@.len() - i,
    {
        i = i + 1;
    }
    i
}

/// First space position in `line` at or after `from`.
fn token_end_from(line: &Vec<u8>, from: usize) -> (r: usize)
    requires
        from <= line@.len(),
    ensures
        r as int == token_end(line@, from as int),
        from <= r <= line@.len(),
{
    proof {
        lemma_token_end_range(line@, from as int);
    }
    let mut i = from;
    while i < line.len() && !is_space_exec(line[i])
        invariant
            from <= i <= line@.len(),
            token_end(line@, from as int) == token_end(line@, i as int),
        decreases line@.len() - i,
    {
        i = i + 1;
    }
    i
}

fn is_space_exec(b: u8) -> (r: bool)
    ensures
        r == is_space(b),
{
    b == 32 || b == 9 || b == 10 || b == 13
}

/// Whether `line[start..end]` is exactly `pat`.
fn bytes_eq(line: &Vec<u8>, start: usize, end: usize, pat: &Vec<u8>) -> (r: bool)
    requires
        start <= end <= line@.len(),
    ensures
        r <==> line@.subrange(start as int, end as int) == pat@,
{
    if end - start != pat.len() {
        proof {
            assert(line@.subrange(start as int, end as int).len() != pat@.len());
        }
        return false;
    }
    let mut k: usize = 0;
    while k < pat.len()
        invariant
            k <= pat@.len(),
            start + pat@.len() == end <= line@.len(),
            forall|t: int| 0 <= t < k ==> line@[start + t] == pat@[t],
        decreases pat@.len() - k,
    {
        if line[start + k] != pat[k] {
            proof {
                assert(line@.subrange(start as int, end as int)[k as int] != pat@[k as int]);
            }
            return false;
        }
        k = k + 1;
    }
    proof {
        assert(line@.subrange(start as int, end as int) =~= pat@);
    }
    true
}

/// Copy `line[start..end]`.
fn copy_range(line: &Vec<u8>, start: usize, end: usize) -> (r: Vec<u8>)
    requires
        start <= end <= line@.len(),
    ensures
        r@ == line@.subrange(start as int, end as int),
{
    let mut r: Vec<u8> = Vec::new();
    let mut k = start;
    while k < end
        invariant
            start <= k <= end <= line@.len(),
            r@.len() == k - start,
            forall|t: int| 0 <= t < k - start ==> r@[t] == line@[start + t],
        decreases end - k,
    {
        let b = line[k];
        r.push(b);
        k = k + 1;
    }
    proof {
        assert(r@ =~= line@.subrange(start as int, end as int));
    }
    r
}

/// Parse one typed line as `run_command` reads it: the first word
/// selects the command; `read` takes the next word as a file name.
/// `None` when there is no word at all, or when `read` is given no
/// name (the kernel shell treats both as caller errors).
pub fn parse_command(line: &Vec<u8>) -> (r: Option<Command>)
    ensures
        ({
            let s = line@;
            let i0 = skip_spaces(s, 0);
            match r {
                Option::None => i0 == s.len() || (s.subrange(i0, token_end(s, i0)) == read_bytes()
                    && skip_spaces(s, token_end(s, i0)) == s.len()),
                Option::Some(c) => i0 < s.len() && (match c {
                    Command::Hello => s.subrange(i0, token_end(s, i0)) == hello_bytes(),
                    Command::Exit => s.subrange(i0, token_end(s, i0)) == exit_bytes(),
                    Command::ReadFile(name) => {
                        let i1 = skip_spaces(s, token_end(s, i0));
                        &&& s.subrange(i0, token_end(s, i0)) == read_bytes()
                        &&& i1 < s.len()
                        &&& name@ == s.subrange(i1, token_end(s, i1))
                    },
                    Command::Invalid => {
                        let tok = s.subrange(i0, token_end(s, i0));
                        tok != hello_bytes() && tok != exit_bytes() && tok != read_bytes()
                    },
                }),
            }
        }),
{
    let i0 = skip_spaces_from(line, 0);
    if i0 == line.len() {
        return None;
    }
    let e0 = token_end_from(line, i0);
    let hello: Vec<u8> = vec![104u8, 101u8, 108u8, 108u8, 111u8];
    let exit_word: Vec<u8> = vec![101u8, 120u8, 105u8, 116u8];
    let read_word: Vec<u8> = vec![114u8, 101u8, 97u8, 100u8];
    proof {
        assert(hello@ =~= hello_bytes());
        assert(exit_word@ =~= exit_bytes());
        assert(read_word@ =~= read_bytes());
    }
    if bytes_eq(line, i0, e0, &hello) {
        Some(Command::Hello)
    } else if bytes_eq(line, i0, e0, &exit_word) {
        Some(Command::Exit)
    } else if bytes_eq(line, i0, e0, &read_word) {
        let i1 = skip_spaces_from(line, e0);
        if i1 == line.len() {
            return None;
        }
        let e1 = token_end_from(line, i1);
        let name = copy_range(line, i1, e1);
        Some(Command::ReadFile(name))
    } else {
        Some(Command::Invalid)
    }
}

impl Default for Shell {
    /// An empty line.
    fn default() -> (r: Self)
        ensures
            r.wf(),
            r.line() == Seq::<u8>::empty(),
    {
        let buffer: Vec<u8> = vec![0u8; LINE_MAX];
        let r = Shell { buffer, size: 0 };
        proof {
            assert(r.line() =~= Seq::<u8>::empty());
        }
        r
    }
}

} // verus!
