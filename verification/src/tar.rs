//! Tar archive header layout and the decoders the tar filesystem
//! reader uses.
//!
//! The disk I/O of the reader is an external collaborator; what
//! belongs here is the header record, the octal size field and the
//! sector arithmetic.

use vstd::prelude::*;

verus! {

/// Sector size of the block device the archive lives on.
pub const SECTOR_SIZE: u64 = 512;

/// Type flag of a tar header, stored on disk as the ASCII bytes
/// b'0'..b'7', b'g' and b'x'.
#[derive(Clone, Copy, PartialEq, Eq, Structural, Debug)]
pub enum Type {
    File,
    Link,
    SymLink,
    CharSpec,
    BlockSpec,
    Dir,
    FIFO,
    ContigFile,
    GlobalExtHeader,
    ExtHeaderNext,
}

impl Type {
    /// Decode the on-disk type byte.
    pub fn from_byte(b: u8) -> (r: Option<Type>)
        ensures
            b == 48 ==> r == Some(Type::File),
            b == 49 ==> r == Some(Type::Link),
            b == 50 ==> r == Some(Type::SymLink),
            b == 51 ==> r == Some(Type::CharSpec),
            b == 52 ==> r == Some(Type::BlockSpec),
            b == 53 ==> r == Some(Type::Dir),
            b == 54 ==> r == Some(Type::FIFO),
            b == 55 ==> r == Some(Type::ContigFile),
            b == 103 ==> r == Some(Type::GlobalExtHeader),
            b == 120 ==> r == Some(Type::ExtHeaderNext),
            !(48 <= b <= 55 || b == 103 || b == 120) ==> r is None,
    {
        if b == 48 {
            Some(Type::File)
        } else if b == 49 {
            Some(Type::Link)
        } else if b == 50 {
            Some(Type::SymLink)
        } else if b == 51 {
            Some(Type::CharSpec)
        } else if b == 52 {
            Some(Type::BlockSpec)
        } else if b == 53 {
            Some(Type::Dir)
        } else if b == 54 {
            Some(Type::FIFO)
        } else if b == 55 {
            Some(Type::ContigFile)
        } else if b == 103 {
            Some(Type::GlobalExtHeader)
        } else if b == 120 {
            Some(Type::ExtHeaderNext)
        } else {
            None
        }
    }
}

/// One tar header record, its fields as the raw on-disk bytes.
pub struct Tar {
    pub path_name: Vec<u8>,
    pub mode: Vec<u8>,
    pub owner_uid: Vec<u8>,
    pub group_uid: Vec<u8>,
    /// Octal ASCII digits, possibly NUL-terminated.
    pub size: Vec<u8>,
    pub last_mod: Vec<u8>,
    pub chksum: Vec<u8>,
    pub ty: Type,
    pub name: Vec<u8>,
    /// b"ustar" for a POSIX archive.
    pub ustar: Vec<u8>,
    pub usver: Vec<u8>,
    pub owner_username: Vec<u8>,
    pub owner_groupname: Vec<u8>,
    pub dev_major_num: Vec<u8>,
    pub dev_minor_num: Vec<u8>,
    pub filename_prefix: Vec<u8>,
}

impl Tar {
    /// Whether the record is a POSIX header: its magic field starts
    /// with the bytes of "ustar".  The reader stops at the first
    /// record that is not.
    pub fn is_ustar(&self) -> (r: bool)
        ensures
            r <==> self.ustar@.len() >= 5 && self.ustar@.subrange(0, 5) == ustar_bytes(),
    {
        if self.ustar.len() < 5 {
            return false;
        }
        let magic: Vec<u8> = vec![117u8, 115u8, 116u8, 97u8, 114u8];
        proof {
            assert(magic@ =~= ustar_bytes());
        }
        let mut k: usize = 0;
        while k < 5
            invariant
                k <= 5,
                self.ustar@.len() >= 5,
                magic@ == ustar_bytes(),
                forall|t: int| 0 <= t < k ==> self.ustar@[t] == magic@[t],
            decreases 5 - k,
        {
            if self.ustar[k] != magic[k] {
                proof {
                    assert(self.ustar@.subrange(0, 5)[k as int] != ustar_bytes()[k as int]);
                }
                return false;
            }
            k = k + 1;
        }
        proof {
            assert(self.ustar@.subrange(0, 5) =~= ustar_bytes());
        }
        true
    }
}

/// The bytes of "ustar".
pub open spec fn ustar_bytes() -> Seq<u8> {
    seq![117u8, 115u8, 116u8, 97u8, 114u8]
}

/// One file of the in-memory tar filesystem.
pub struct File {
    pub name: Vec<u8>,
    pub in_use: bool,
    pub data: Vec<u8>,
    pub size: u64,
    /// Sector offset of the file's header on disk.
    pub offset: u64,
}

/// Value of a sequence of ASCII octal digits, most significant first.
pub open spec fn octal_val(s: Seq<u8>) -> int
    decreases s.len(),
{
    if s.len() == 0 {
        0
    } else {
        octal_val(s.drop_last()) * 8 + (s.last() - 48)
    }
}

/// Whether every byte is an ASCII octal digit.
pub open spec fn all_octal(s: Seq<u8>) -> bool {
    forall|i: int| 0 <= i < s.len() ==> 48 <= #[trigger] s[i] <= 55
}

proof fn lemma_octal_val_bound(s: Seq<u8>)
    requires
        all_octal(s),
    ensures
        0 <= octal_val(s),
        octal_val(s) < pow8(s.len() as int),
    decreases s.len(),
{
    if s.len() > 0 {
        assert(all_octal(s.drop_last())) by {
            assert(forall|i: int|
                0 <= i < s.len() - 1 ==> s.drop_last()[i] == #[trigger] s[i]);
        }
        lemma_octal_val_bound(s.drop_last());
        assert(octal_val(s.drop_last()) * 8 + 8 <= pow8(s.len() as int - 1) * 8) by (
        nonlinear_arith)
            requires
                octal_val(s.drop_last()) < pow8(s.len() as int - 1),
        ;
    }
}

/// 8 to the `n`-th power.
pub open spec fn pow8(n: int) -> int
    decreases n,
{
    if n <= 0 {
        1
    } else {
        8 * pow8(n - 1)
    }
}

/// A size field with its single trailing NUL, if present, taken off
/// (the digits are what remains).
pub open spec fn trimmed(s: Seq<u8>) -> Seq<u8> {
    if s.len() > 0 && s.last() == 0 {
        s.drop_last()
    } else {
        s
    }
}

/// Parse the size field of a tar header: ASCII octal digits with an
/// optional trailing NUL.  `None` when any digit position holds a
/// non-octal byte.  Fields are short (at most 20 digits), so the
/// value fits the result.
pub fn parse_octal(s: &Vec<u8>) -> (r: Option<u64>)
    requires
        s@.len() <= 20,
        trimmed(s@).len() >= 1,
    ensures
        (match r {
            Option::Some(v) => all_octal(trimmed(s@)) && v == octal_val(trimmed(s@)),
            Option::None => !all_octal(trimmed(s@)),
        }),
{
    let n: usize = if s.len() > 0 && s[s.len() - 1] == 0 {
        s.len() - 1
    } else {
        s.len()
    };
    proof {
        assert(trimmed(s@) =~= s@.take(n as int));
    }
    let mut val: u64 = 0;
    let mut i: usize = 0;
    proof {
        assert(s@.take(0) =~= Seq::<u8>::empty());
    }
    while i < n
        invariant
            i <= n <= s@.len(),
            s@.len() <= 20,
            trimmed(s@) =~= s@.take(n as int),
            all_octal(s@.take(i as int)),
            val == octal_val(s@.take(i as int)),
            val < 0x2000000000000000,
        decreases n - i,
    {
        let b = s[i];
        if b < 48 || b > 55 {
            proof {
                assert(trimmed(s@)[i as int] == s@[i as int]);
            }
            return None;
        }
        proof {
            assert(s@.take(i + 1).drop_last() =~= s@.take(i as int));
            assert(all_octal(s@.take(i + 1))) by {
                assert(forall|k: int|
                    0 <= k < i ==> s@.take(i + 1)[k] == #[trigger] s@.take(i as int)[k]);
                assert(s@.take(i + 1)[i as int] == s@[i as int]);
            }
            lemma_octal_val_bound(s@.take(i + 1));
            lemma_pow8_mono(i + 1, 20);
            lemma_pow8_20();
        }
        val = val * 8 + ((b - 48) as u64);
        i = i + 1;
    }
    proof {
        assert(s@.take(n as int) =~= trimmed(s@));
    }
    Some(val)
}

proof fn lemma_pow8_mono(a: int, b: int)
    requires
        0 <= a <= b,
    ensures
        pow8(a) <= pow8(b),
    decreases b - a,
{
    if a < b {
        lemma_pow8_mono(a, b - 1);
        assert(pow8(b) == 8 * pow8(b - 1));
        assert(pow8(b - 1) >= 1) by {
            lemma_pow8_pos(b - 1);
        }
    }
}

proof fn lemma_pow8_pos(n: int)
    ensures
        pow8(n) >= 1,
    decreases n,
{
    if n > 0 {
        lemma_pow8_pos(n - 1);
    }
}

proof fn lemma_pow8_20()
    ensures
        pow8(20) == 0x1000000000000000,
{
    reveal_with_fuel(pow8, 21);
}

/// How many whole sectors hold `size` bytes.
pub fn sectors_for(size: u64) -> (r: u64)
    requires
        size <= u64::MAX - 511,
    ensures
        r == (size + 511) / 512,
        r * 512 >= size,
{
    let r = (size + 511) / 512;
    proof {
        assert(r * 512 >= size) by (nonlinear_arith)
            requires
                r as int == (size + 511) as int / 512,
                size <= u64::MAX - 511,
        ;
    }
    r
}

} // verus!
