//! File system calls: writing a user buffer to standard output.

use vstd::prelude::*;
use vstd::utf8::{valid_utf8, decode_utf8, encode_utf8_decode_utf8};
use crate::console::{Console, str_from_utf8};

verus! {

/// File descriptor of standard output.
pub const FD_STDOUT: usize = 1;
/// Lowest address of the user stack.
pub const USER_STACK_BASE: usize = 0x80400000 - 0x1000;
/// End of the user stack.
pub const USER_STACK_TOP: usize = 0x80400000;
/// Where the application is loaded.
pub const APP_BASE_ADDRESS: usize = 0x80400000;
/// Largest application image.
pub const APP_SIZE_LIMIT: usize = 0x20000;
/// Start of kernel memory.
pub const KERNEL_BASE: usize = 0x80000000;

/// Whether `len` bytes at `addr` are user memory: not null, and all within
/// the user stack or within the application area.
pub open spec fn user_buffer_ok(addr: nat, len: nat) -> bool {
    &&& addr != 0
    &&& {
        ||| (addr >= USER_STACK_BASE && addr + len <= USER_STACK_TOP)
        ||| (addr >= APP_BASE_ADDRESS && addr + len <= APP_BASE_ADDRESS + APP_SIZE_LIMIT)
    }
}

/// Checks that the buffer of `len` bytes at address `buf` lies in user space.
/// A buffer whose end does not fit in an address is refused.
pub fn check_user_buffer(buf: usize, len: usize) -> (ok: bool)
    ensures
        ok == user_buffer_ok(buf as nat, len as nat),
        buf + len > usize::MAX ==> !ok,
{
    let addr = buf;
    if addr == 0 {
        return false;
    }
    let end = match addr.checked_add(len) {
        Some(e) => e,
        None => return false,
    };
    if addr >= USER_STACK_BASE && end <= USER_STACK_TOP {
        return true;
    }
    if addr >= APP_BASE_ADDRESS && end <= APP_BASE_ADDRESS + APP_SIZE_LIMIT {
        return true;
    }
    if addr >= KERNEL_BASE && addr < APP_BASE_ADDRESS {
        return false;
    }
    false
}

/// Whether `sys_write` prints the buffer: standard output, a buffer in user
/// space, and bytes that are valid UTF-8.
pub open spec fn write_accepted(fd: usize, buf: usize, len: usize, bytes: Seq<u8>) -> bool {
    &&& fd == FD_STDOUT
    &&& user_buffer_ok(buf as nat, len as nat)
    &&& valid_utf8(bytes)
}

/// Writes the buffer of `len` bytes at address `buf` to file `fd`;
/// `user_bytes` are the bytes found at that address. Only standard output is
/// supported, only for a buffer in user space, and only for text: then the
/// text (UTF-8) is printed and the answer is `len`; otherwise nothing is
/// printed and the answer is -1.
pub fn sys_write(console: &mut Console, fd: usize, buf: usize, len: usize, user_bytes: &[u8]) -> (r: isize)
    requires
        fd == FD_STDOUT && user_buffer_ok(buf as nat, len as nat) ==> user_bytes@.len() == len,
    ensures
        write_accepted(fd, buf, len, user_bytes@) ==> {
            &&& r == len as isize
            &&& final(console)@ == old(console)@ + decode_utf8(user_bytes@)
        },
        !write_accepted(fd, buf, len, user_bytes@) ==> {
            &&& r == -1
            &&& final(console)@ == old(console)@
        },
{
    if fd == FD_STDOUT {
        if !check_user_buffer(buf, len) {
            return -1;
        }
        match str_from_utf8(user_bytes) {
            Some(text) => {
                proof {
                    encode_utf8_decode_utf8(text@);
                }
                console.write_str(text);
                len as isize
            },
            None => -1,
        }
    } else {
        -1
    }
}

/// Law: the buffer check accepts exactly the non-null buffers that lie wholly
/// inside the user stack or wholly inside the application area, whatever
/// their alignment; `sys_write` prints exactly such buffers on standard output
/// when they hold UTF-8 text.
pub proof fn law_user_buffers_accepted(fd: usize, addr: usize, len: usize, bytes: Seq<u8>)
    ensures
        user_buffer_ok(addr as nat, len as nat) <==> (addr != 0 && (
            (0x803FF000 <= addr && addr + len <= 0x80400000)
            || (0x80400000 <= addr && addr + len <= 0x80420000))),
        write_accepted(fd, addr, len, bytes) <==> (fd == 1 && valid_utf8(bytes) && addr != 0 && (
            (0x803FF000 <= addr && addr + len <= 0x80400000)
            || (0x80400000 <= addr && addr + len <= 0x80420000))),
{
}

/// Law: an accepted buffer lies entirely inside the user stack or inside the
/// application area, and never in the kernel below the application.
pub proof fn law_accepted_buffer_is_user_memory(addr: nat, len: nat)
    requires
        user_buffer_ok(addr, len),
    ensures
        (USER_STACK_BASE <= addr && addr + len <= USER_STACK_TOP)
            || (APP_BASE_ADDRESS <= addr && addr + len <= APP_BASE_ADDRESS + APP_SIZE_LIMIT),
        !(KERNEL_BASE <= addr < USER_STACK_BASE),
{
}

} // verus!
