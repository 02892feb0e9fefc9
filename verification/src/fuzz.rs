//! Hand-made system calls for fuzzing: the arguments each call is made
//! with, and the random access mode of the opened file.
use vstd::prelude::*;
use rand::Rng;
use crate::text::{after_last, chars_of, after_last_vec, string_of};

verus! {

/// An `open` call: number, directory descriptor, path address, flags, mode.
pub struct SysOpen {
    nr: u32,
    dirfd: usize,
    pathname: usize,
    flags: usize,
    mode: usize,
}

impl SysOpen {
    pub closed spec fn spec_nr(&self) -> u32 {
        self.nr
    }

    pub closed spec fn spec_dirfd(&self) -> usize {
        self.dirfd
    }

    /// The call's number `a0`, directory descriptor `a1`, path address `a2`,
    /// flags `a3` and mode `a4`.
    pub fn new(a0: u32, a1: usize, a2: usize, a3: usize, a4: usize) -> (s: Self)
        ensures
            s.spec_nr() == a0,
            s.spec_dirfd() == a1,
            s.open_arguments_spec() == (a2, a3, a4),
    {
        SysOpen { nr: a0, dirfd: a1, pathname: a2, flags: a3, mode: a4 }
    }

    /// The arguments `open` is made with: path, flags and mode (the
    /// directory descriptor is not passed).
    pub closed spec fn open_arguments_spec(&self) -> (usize, usize, usize) {
        (self.pathname, self.flags, self.mode)
    }

    /// The arguments `open` is made with.
    pub fn open_arguments(&self) -> (r: (usize, usize, usize))
        ensures
            r == self.open_arguments_spec(),
    {
        (self.pathname, self.flags, self.mode)
    }
}

/// A `read` call into a buffer of ten spaces, for ten bytes.
pub struct SysRead {
    nr: u32,
    fd: usize,
    buf: Vec<u8>,
    count: usize,
}

impl SysRead {
    pub closed spec fn spec_nr(&self) -> u32 {
        self.nr
    }

    pub closed spec fn spec_fd(&self) -> usize {
        self.fd
    }

    pub closed spec fn spec_buf(&self) -> Seq<u8> {
        self.buf@
    }

    pub closed spec fn spec_count(&self) -> usize {
        self.count
    }

    /// The call with number `a0` on descriptor `a1`.
    pub fn new(a0: u32, a1: usize) -> (s: Self)
        ensures
            s.spec_nr() == a0,
            s.spec_fd() == a1,
            s.spec_buf() == Seq::new(10, |i: int| 32u8),
            s.spec_count() == 10,
    {
        let buf = vec![32u8; 10];
        assert(buf@ =~= Seq::new(10, |i: int| 32u8));
        SysRead { nr: a0, fd: a1, buf, count: 10 }
    }

    /// The descriptor read from.
    pub fn fd(&self) -> (r: usize)
        ensures
            r == self.spec_fd(),
    {
        self.fd
    }

    /// The number of bytes asked for.
    pub fn count(&self) -> (r: usize)
        ensures
            r == self.spec_count(),
    {
        self.count
    }

    /// The buffer read into.
    pub fn buf(&self) -> (r: &Vec<u8>)
        ensures
            r@ == self.spec_buf(),
    {
        &self.buf
    }
}

/// A `write` call of `count` bytes of a buffer to a descriptor.
pub struct SysWrite<'a> {
    nr: u32,
    fd: usize,
    buf: &'a Vec<u8>,
    count: usize,
}

impl<'a> SysWrite<'a> {
    pub closed spec fn spec_nr(&self) -> u32 {
        self.nr
    }

    pub closed spec fn spec_fd(&self) -> usize {
        self.fd
    }

    pub closed spec fn spec_buf(&self) -> Seq<u8> {
        self.buf@
    }

    pub closed spec fn spec_count(&self) -> usize {
        self.count
    }

    /// The call that writes `count` bytes of `buf` to `fd`; it is system
    /// call number one.
    pub fn new(fd: usize, buf: &'a Vec<u8>, count: usize) -> (s: Self)
        ensures
            s.spec_nr() == 1,
            s.spec_fd() == fd,
            s.spec_buf() == buf@,
            s.spec_count() == count,
    {
        SysWrite { nr: 1, fd, buf, count }
    }

    /// The descriptor written to.
    pub fn fd(&self) -> (r: usize)
        ensures
            r == self.spec_fd(),
    {
        self.fd
    }

    /// The number of bytes written.
    pub fn count(&self) -> (r: usize)
        ensures
            r == self.spec_count(),
    {
        self.count
    }

    /// The buffer written from.
    pub fn buf(&self) -> (r: &Vec<u8>)
        ensures
            r@ == self.spec_buf(),
    {
        self.buf
    }
}

/// A number drawn uniformly below `bound`.
///
/// Trusted: `rand::Rng::gen_range(0..bound)` on the thread's generator;
/// rand documents that the value lies in the range (which is not empty
/// here, so the call does not panic). Which value comes is chance.
#[verifier::external_body]
fn random_below(bound: u32) -> (r: u32)
    requires
        bound > 0,
    ensures
        r < bound,
{
    rand::thread_rng().gen_range(0..bound)
}

/// Trusted: `libc::O_RDONLY`, which libc defines as 0 on Linux.
#[verifier::external_body]
fn o_rdonly() -> (f: i32)
    ensures
        f == 0,
{
    libc::O_RDONLY
}

/// Trusted: `libc::O_WRONLY`, which libc defines as 1 on Linux.
#[verifier::external_body]
fn o_wronly() -> (f: i32)
    ensures
        f == 1,
{
    libc::O_WRONLY
}

/// Trusted: `libc::O_RDWR`, which libc defines as 2 on Linux.
#[verifier::external_body]
fn o_rdwr() -> (f: i32)
    ensures
        f == 2,
{
    libc::O_RDWR
}

/// The access flag of the draw `mode`: read-only, write-only, or (any
/// other draw) read-write.
pub fn flag_for_mode(mode: u32) -> (f: i32)
    ensures
        mode == 0 ==> f == 0,
        mode == 1 ==> f == 1,
        mode >= 2 ==> f == 2,
{
    match mode {
        0 => o_rdonly(),
        1 => o_wronly(),
        _ => o_rdwr(),
    }
}

/// A random access flag: read-only, write-only or read-write.
pub fn rand_falgs() -> (f: i32)
    ensures
        f == 0 || f == 1 || f == 2,
{
    let mode = random_below(3);
    flag_for_mode(mode)
}

/// The path a copied file is written to: the copy directory, a slash, the
/// file's last path component, and the terminating NUL the system call
/// expects.
pub open spec fn copy_target(write_dir: Seq<char>, entry_path: Seq<char>) -> Seq<char> {
    write_dir + seq!['/'] + after_last(entry_path, '/') + seq!['\0']
}

/// The path a copied file is written to.
pub fn r_w_target(write_dir: &str, entry_path: &str) -> (r: String)
    ensures
        r@ == copy_target(write_dir@, entry_path@),
{
    let mut v = chars_of(write_dir);
    v.push('/');
    let p = chars_of(entry_path);
    let last = after_last_vec(&p, '/');
    v.extend_from_slice(last.as_slice());
    v.push('\0');
    string_of(&v)
}

/// A path followed by the terminating NUL the system call expects.
pub fn nul_terminated(path: &str) -> (r: String)
    ensures
        r@ == path@ + seq!['\0'],
{
    let mut v = chars_of(path);
    v.push('\0');
    string_of(&v)
}

/// How a generator's copy loop goes on after a read at `offset` moved
/// `moved` bytes: the number of bytes to write (at `offset`, for a
/// positioned copy) and the offset of the next read; `None` when the copy
/// stops. It stops on a read that moved nothing, and, when `whole` is
/// given, on one that did not move exactly `whole` bytes.
pub open spec fn copy_step_spec(offset: int, moved: int, whole: Option<usize>) -> Option<(int, int)> {
    if moved == 0 || (whole matches Some(w) && moved != w) {
        None
    } else {
        Some((moved, offset + moved))
    }
}

/// How a copy loop goes on after a read at `offset` moved `moved` bytes.
/// The next offset must stay a valid offset, as the loop's addition
/// requires.
pub fn copy_step(offset: usize, moved: usize, whole: Option<usize>) -> (r: Option<(usize, usize)>)
    requires
        offset + moved <= usize::MAX,
    ensures
        match r {
            Some((count, next)) => copy_step_spec(offset as int, moved as int, whole) == Some(
                (count as int, next as int),
            ),
            None => copy_step_spec(offset as int, moved as int, whole) is None,
        },
{
    if moved == 0 {
        return None;
    }
    match whole {
        Some(w) => if moved != w {
            return None;
        },
        None => {},
    }
    Some((moved, offset + moved))
}

} // verus!
