//! One discovered virtual machine: the path of its published data file and
//! the process id parsed from that file's name.

use vstd::prelude::*;

use crate::errors::Error;
use vstd::string::StrSliceExecFns;

verus! {

/// The suffix of `s` after its last path separator: the file name, or all of
/// `s` when it holds no separator.
pub open spec fn suffix_after_slash(s: Seq<char>) -> Seq<char>
    decreases s.len(),
{
    if s.len() == 0 {
        s
    } else if s.last() == '/' {
        Seq::empty()
    } else {
        suffix_after_slash(s.drop_last()).push(s.last())
    }
}

/// Whether `c` is a decimal digit.
pub open spec fn is_digit(c: char) -> bool {
    48 <= c as int <= 57
}

/// Whether every character of `s` is a decimal digit.
pub open spec fn all_digits(s: Seq<char>) -> bool {
    forall|i: int| 0 <= i < s.len() ==> is_digit(#[trigger] s[i])
}

/// The number the decimal digits of `s` spell, most significant first.
pub open spec fn digits_value(s: Seq<char>) -> int
    decreases s.len(),
{
    if s.len() == 0 {
        0
    } else {
        digits_value(s.drop_last()) * 10 + (s.last() as int - 48)
    }
}

/// The process id a file name spells: defined exactly when the name is
/// nonempty, all digits, and within the unsigned 32-bit range.
pub open spec fn spec_parse_pid(s: Seq<char>) -> Option<u32> {
    if s.len() > 0 && all_digits(s) && digits_value(s) <= u32::MAX {
        Some(digits_value(s) as u32)
    } else {
        None
    }
}

/// The digits of a nonnegative prefix never spell more than the whole.
proof fn lemma_digits_value_nonneg(s: Seq<char>)
    requires
        all_digits(s),
    ensures
        digits_value(s) >= 0,
    decreases s.len(),
{
    if s.len() > 0 {
        assert(is_digit(s[s.len() - 1]));
        assert(all_digits(s.drop_last()));
        lemma_digits_value_nonneg(s.drop_last());
    }
}

/// A prefix of an all-digit sequence spells at most what the whole spells.
proof fn lemma_digits_value_monotone(s: Seq<char>, j: int)
    requires
        all_digits(s),
        0 <= j <= s.len(),
    ensures
        digits_value(s.take(j)) <= digits_value(s),
    decreases s.len(),
{
    if j == s.len() {
        assert(s.take(j) =~= s);
    } else {
        assert(all_digits(s.drop_last()));
        assert(s.take(j) =~= s.drop_last().take(j));
        lemma_digits_value_monotone(s.drop_last(), j);
        assert(is_digit(s[s.len() - 1]));
        lemma_digits_value_nonneg(s.drop_last());
    }
}

/// The model of a discovered virtual machine: its data file's path and its
/// process id.
pub ghost struct JavaVirtualMachineModel {
    pub path: Seq<char>,
    pub pid: u32,
}

/// A virtual machine found by its published data file. The file's name,
/// parsed as an unsigned decimal number, is the machine's process id.
#[derive(Debug)]
pub struct JavaVirtualMachine {
    hs_perf_data_path: String,
    pid: u32,
}

impl View for JavaVirtualMachine {
    type V = JavaVirtualMachineModel;

    closed spec fn view(&self) -> JavaVirtualMachineModel {
        JavaVirtualMachineModel { path: self.hs_perf_data_path@, pid: self.pid }
    }
}

impl JavaVirtualMachine {
    /// Builds the record for one candidate data file: takes the file name —
    /// the part of the path after the last separator — and parses it as the
    /// process id. An empty file name is an invalid path; a name that is not
    /// a decimal number in range fails the pid parse, distinctly.
    pub fn from_path(path: &str) -> (r: Result<JavaVirtualMachine, Error>)
        ensures
            match r {
                Ok(jvm) => {
                    &&& suffix_after_slash(path@).len() > 0
                    &&& spec_parse_pid(suffix_after_slash(path@)) == Some(jvm@.pid)
                    &&& jvm@.path == path@
                },
                Err(e) => {
                    ||| (suffix_after_slash(path@).len() == 0 && e == Error::InvalidPath)
                    ||| (suffix_after_slash(path@).len() > 0 && spec_parse_pid(
                        suffix_after_slash(path@),
                    ) is None && e == Error::FailedToParsePid)
                },
            },
    {
        let n = path.unicode_len();
        let mut start: usize = 0;
        let mut i: usize = 0;
        while i < n
            invariant
                n == path@.len(),
                0 <= i <= n,
                0 <= start <= i,
                suffix_after_slash(path@.take(i as int)) =~= path@.subrange(start as int, i as int),
            decreases n - i,
        {
            let c = path.get_char(i);
            proof {
                assert(path@.take(i + 1).drop_last() =~= path@.take(i as int));
                assert(path@.take(i + 1).last() == path@[i as int]);
            }
            if c == '/' {
                start = i + 1;
                proof {
                    assert(suffix_after_slash(path@.take(i + 1)) =~= path@.subrange(
                        start as int,
                        i + 1,
                    ));
                }
            } else {
                proof {
                    assert(suffix_after_slash(path@.take(i + 1)) =~= path@.subrange(
                        start as int,
                        i + 1,
                    ));
                }
            }
            i = i + 1;
        }
        proof {
            assert(path@.take(n as int) =~= path@);
        }
        let ghost name = suffix_after_slash(path@);
        if start == n {
            return Err(Error::InvalidPath);
        }
        let mut acc: u64 = 0;
        let mut j: usize = start;
        while j < n
            invariant
                n == path@.len(),
                name == suffix_after_slash(path@),
                name =~= path@.subrange(start as int, n as int),
                start <= j <= n,
                start < n,
                acc <= u32::MAX,
                all_digits(name.take(j - start)),
                acc == digits_value(name.take(j - start)),
            decreases n - j,
        {
            let c = path.get_char(j);
            let d = c as u32;
            proof {
                assert(name[j - start] == path@[j as int]);
                assert(name.take(j + 1 - start).drop_last() =~= name.take(j - start));
                assert(name.take(j + 1 - start).last() == name[j - start]);
            }
            if d < 48 || d > 57 {
                proof {
                    assert(!is_digit(name[j - start]));
                    assert(!all_digits(name));
                }
                return Err(Error::FailedToParsePid);
            }
            let next: u64 = acc * 10 + (d - 48) as u64;
            if next > u32::MAX as u64 {
                proof {
                    assert(all_digits(name.take(j + 1 - start)));
                    assert(digits_value(name.take(j + 1 - start)) == next);
                    if all_digits(name) {
                        lemma_digits_value_monotone(name, j + 1 - start);
                        assert(digits_value(name) > u32::MAX);
                    }
                    assert(spec_parse_pid(name) is None);
                }
                return Err(Error::FailedToParsePid);
            }
            acc = next;
            j = j + 1;
        }
        proof {
            assert(name.take(n - start) =~= name);
        }
        Ok(JavaVirtualMachine { hs_perf_data_path: path.to_owned(), pid: acc as u32 })
    }

    /// The path of the machine's published data file.
    pub fn hs_perf_data_path(&self) -> (r: &String)
        ensures
            r@ == self@.path,
    {
        &self.hs_perf_data_path
    }

    /// The process id parsed from the data file's name.
    pub fn pid(&self) -> (r: u32)
        ensures
            r == self@.pid,
    {
        self.pid
    }
}

} // verus!
