use vstd::prelude::*;

verus! {

/// The log filter that a verbosity level selects: quieter levels keep only
/// errors or warnings of this crate, louder ones add debug and trace output;
/// at the default level the `CINEMOTION_LOG` setting (`env_level`) is used
/// where there is one.
pub open spec fn base_filter(verbosity: int, env_level: Option<Seq<char>>) -> Seq<char> {
    if verbosity <= -3 {
        Seq::empty()
    } else if verbosity == -2 {
        "cinemotion=error"@
    } else if verbosity == -1 {
        "cinemotion=warn"@
    } else if verbosity == 0 {
        match env_level {
            Some(l) => l,
            None => "cinemotion=info"@,
        }
    } else if verbosity == 1 {
        "cinemotion=debug"@
    } else if verbosity == 2 {
        "cinemotion=trace"@
    } else {
        "trace"@
    }
}

/// The whole filter: the `RUST_LOG` setting (`rust_log`), where there is
/// one, is appended after a comma and so overrides the base filter.
pub open spec fn filter_config(
    verbosity: int,
    env_level: Option<Seq<char>>,
    rust_log: Option<Seq<char>>,
) -> Seq<char> {
    match rust_log {
        Some(tail) => base_filter(verbosity, env_level) + ","@ + tail,
        None => base_filter(verbosity, env_level),
    }
}

/// The log filter for a verbosity (the count of `--verbose` flags minus the
/// count of `--quiet` flags) and the values of `CINEMOTION_LOG` and
/// `RUST_LOG`, where they are set.
pub fn logging_config(verbosity: i32, env_level: Option<&str>, rust_log: Option<&str>) -> (r: String)
    ensures
        r@ == filter_config(
            verbosity as int,
            match env_level {
                Some(l) => Some(l@),
                None => None,
            },
            match rust_log {
                Some(t) => Some(t@),
                None => None,
            },
        ),
{
    let mut base = if verbosity <= -3 {
        String::new()
    } else if verbosity == -2 {
        "cinemotion=error".to_owned()
    } else if verbosity == -1 {
        "cinemotion=warn".to_owned()
    } else if verbosity == 0 {
        match env_level {
            Some(l) => l.to_owned(),
            None => "cinemotion=info".to_owned(),
        }
    } else if verbosity == 1 {
        "cinemotion=debug".to_owned()
    } else if verbosity == 2 {
        "cinemotion=trace".to_owned()
    } else {
        "trace".to_owned()
    };
    match rust_log {
        Some(tail) => {
            base.append(",");
            base.append(tail);
        },
        None => {},
    }
    base
}

} // verus!
