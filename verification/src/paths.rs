//! On-disk layout of a dataset: directory and sweep-file naming.
//!
//! A dataset split lives under `<root>/<dataset_type>/<split_name>`, each
//! recording session in a directory named by its session id, and each sweep
//! in `sensors/lidar/<timestamp_ns>.feather` below the session directory.

use vstd::prelude::*;
use vstd::string::StringExecFns;

verus! {

/// The decimal digits of `n`, most significant first.
pub open spec fn dec_digits(n: nat) -> Seq<char>
    decreases n,
{
    if n < 10 {
        seq![digit_char(n)]
    } else {
        dec_digits(n / 10) + seq![digit_char(n % 10)]
    }
}

/// The character for one decimal digit.
pub open spec fn digit_char(d: nat) -> char {
    if d == 0 {
        '0'
    } else if d == 1 {
        '1'
    } else if d == 2 {
        '2'
    } else if d == 3 {
        '3'
    } else if d == 4 {
        '4'
    } else if d == 5 {
        '5'
    } else if d == 6 {
        '6'
    } else if d == 7 {
        '7'
    } else if d == 8 {
        '8'
    } else {
        '9'
    }
}

/// Appends the decimal digits of `n` to `out`.
fn push_decimal(out: &mut String, n: u64)
    ensures
        final(out)@ == old(out)@ + dec_digits(n as nat),
    decreases n,
{
    if n >= 10 {
        push_decimal(out, n / 10);
    }
    let d: u64 = n % 10;
    proof {
        reveal_strlit("0");
        reveal_strlit("1");
        reveal_strlit("2");
        reveal_strlit("3");
        reveal_strlit("4");
        reveal_strlit("5");
        reveal_strlit("6");
        reveal_strlit("7");
        reveal_strlit("8");
        reveal_strlit("9");
    }
    if d == 0 {
        out.append("0");
    } else if d == 1 {
        out.append("1");
    } else if d == 2 {
        out.append("2");
    } else if d == 3 {
        out.append("3");
    } else if d == 4 {
        out.append("4");
    } else if d == 5 {
        out.append("5");
    } else if d == 6 {
        out.append("6");
    } else if d == 7 {
        out.append("7");
    } else if d == 8 {
        out.append("8");
    } else {
        out.append("9");
    }
    proof {
        assert(out@ =~= old(out)@ + dec_digits(n as nat));
    }
}

/// The decimal rendering of `n`, without sign or padding.
pub fn u64_to_decimal(n: u64) -> (r: String)
    ensures
        r@ == dec_digits(n as nat),
{
    let mut r = String::new();
    push_decimal(&mut r, n);
    proof {
        assert(r@ =~= dec_digits(n as nat));
    }
    r
}

/// Path of the sweep captured at `timestamp_ns` inside the session
/// directory `log_dir`: `<log_dir>/sensors/lidar/<timestamp_ns>.feather`.
pub fn get_lidar_path(log_dir: &str, timestamp_ns: u64) -> (r: String)
    ensures
        r@ == log_dir@ + "/sensors/lidar/"@ + dec_digits(timestamp_ns as nat) + ".feather"@,
{
    let mut r = log_dir.to_owned();
    r.append("/sensors/lidar/");
    push_decimal(&mut r, timestamp_ns);
    r.append(".feather");
    r
}

/// Directory of one dataset split: `<root_dir>/<dataset_type>/<split_name>`.
pub fn get_split_dir(root_dir: &str, dataset_type: &str, split_name: &str) -> (r: String)
    ensures
        r@ == root_dir@ + "/"@ + dataset_type@ + "/"@ + split_name@,
{
    let mut r = root_dir.to_owned();
    r.append("/");
    r.append(dataset_type);
    r.append("/");
    r.append(split_name);
    r
}

/// Directory of one recording session inside a split directory.
pub fn get_log_dir(split_dir: &str, log_id: &str) -> (r: String)
    ensures
        r@ == split_dir@ + "/"@ + log_id@,
{
    let mut r = split_dir.to_owned();
    r.append("/");
    r.append(log_id);
    r
}

} // verus!
