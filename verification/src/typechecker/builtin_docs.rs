//! Documentation of the built-in types and of the compiler-builtin methods.

use vstd::prelude::*;

verus! {

/// Documentation of a built-in item.
pub const DOC_EARLY_UNWRAP_OR_REJECT: &'static str = "Returns the contained success value, or immediately \
                returns `Reject(reason)` from the enclosing function.\n\
                \n\
                This is the \"fail closed\" bail-out: unlike `unwrap_or`, \
                which substitutes a value and carries on, this stops the \
                enclosing `filtermap` (or `Verdict`-returning function) \
                right here. `reason` is the reject value of the *enclosing* \
                function, which need not be related to this value's own \
                type.";

/// Documentation of a built-in item.
pub const DOC_EARLY_UNWRAP_OR_REJECT_DEFAULT: &'static str = "Returns the contained success value, or immediately \
                returns `Reject(())` from the enclosing function, i.e. a \
                bare `reject`.\n\
                \n\
                Only type-checks when the enclosing function rejects with \
                `()`; otherwise use `unwrap_or_reject(reason)`.";

/// Documentation of a built-in item.
pub const DOC_EARLY_UNWRAP_OR_ACCEPT: &'static str = "Returns the contained success value, or immediately \
                returns `Accept(value)` from the enclosing function.\n\
                \n\
                This is the \"fail open\" bail-out, for a firewall that \
                would rather let something through than reject it when a \
                parse or lookup fails. Note this cannot be expressed with \
                `?`, which only ever early-returns the *failure* variant. \
                `value` is the accept value of the *enclosing* function, \
                which need not be related to this value's own type.";

/// Documentation of a built-in item.
pub const DOC_EARLY_UNWRAP_OR_ACCEPT_DEFAULT: &'static str = "Returns the contained success value, or immediately \
                returns `Accept(())` from the enclosing function, i.e. a \
                bare `accept`.\n\
                \n\
                Only type-checks when the enclosing function accepts with \
                `()`; otherwise use `unwrap_or_accept(value)`.";

/// Documentation of a built-in item.
pub const DOC_OPTION_IS_SOME: &'static str = "Returns `true` if the option is a `Some` value.";

/// Documentation of a built-in item.
pub const DOC_OPTION_IS_NONE: &'static str = "Returns `true` if the option is a `None` value.";

/// Documentation of a built-in item.
pub const DOC_OPTION_UNWRAP_OR: &'static str = "Returns the contained `Some` value, or `default` if \
                the option is `None`.";

/// Documentation of a built-in item.
pub const DOC_OPTION_UNWRAP_OR_DEFAULT: &'static str = "The no-argument counterpart of `unwrap_or`. Roto \
                has no generic \"default value\" for an arbitrary `T` \
                (unlike Rust's `Default` trait), so this only \
                type-checks when `T` is `()` - the one type that needs \
                no value to construct, exactly like a bare `accept`/\
                `reject` always producing `()`.";

/// Documentation of a built-in item.
pub const DOC_OPTION_OK_OR: &'static str = "Transforms the `Option[T]` into a `Result[T, E]`, \
                mapping `Some(v)` to `Ok(v)` and `None` to `Err(err)`.";

/// Documentation of a built-in item.
pub const DOC_RESULT_IS_OK: &'static str = "Returns `true` if the result is `Ok`.";

/// Documentation of a built-in item.
pub const DOC_RESULT_IS_ERR: &'static str = "Returns `true` if the result is `Err`.";

/// Documentation of a built-in item.
pub const DOC_RESULT_OK: &'static str = "Converts the `Result[T, E]` into an `Option[T]`, \
                discarding the error if any.";

/// Documentation of a built-in item.
pub const DOC_RESULT_ERR: &'static str = "Converts the `Result[T, E]` into an `Option[E]`, \
                discarding the success value if any.";

/// Documentation of a built-in item.
pub const DOC_RESULT_UNWRAP_OR: &'static str = "Returns the contained `Ok` value, or `default` if \
                the result is `Err`.";

/// Documentation of a built-in item.
pub const DOC_RESULT_UNWRAP_OR_DEFAULT: &'static str = "The no-argument counterpart of `unwrap_or`. Only \
                type-checks when `T` is `()`, exactly like \
                `Option::unwrap_or_default`.";

/// Documentation of a built-in item.
pub const DOC_VERDICT_IS_ACCEPT: &'static str = "Returns `true` if the verdict is `Accept`.";

/// Documentation of a built-in item.
pub const DOC_VERDICT_IS_REJECT: &'static str = "Returns `true` if the verdict is `Reject`.";

/// Documentation of a built-in item.
pub const DOC_VERDICT_ACCEPTED: &'static str = "Converts the `Verdict[A, R]` into an `Option[A]`, \
                discarding the reject reason if any. The `Verdict` \
                counterpart of `Result::ok`.";

/// Documentation of a built-in item.
pub const DOC_VERDICT_REJECTED: &'static str = "Converts the `Verdict[A, R]` into an `Option[R]`, \
                discarding the accepted value if any. The `Verdict` \
                counterpart of `Result::err`.";

/// Documentation of a built-in item.
pub const DOC_VERDICT_UNWRAP_OR: &'static str = "Returns the contained `Accept` value, or `default` \
                if the verdict is `Reject`.";

/// Documentation of a built-in item.
pub const DOC_VERDICT_UNWRAP_OR_DEFAULT: &'static str = "The no-argument counterpart of `unwrap_or`. Only \
                type-checks when `A` is `()`, exactly like \
                `Option::unwrap_or_default`.";

/// Documentation of a built-in item.
pub const DOC_TYPE_OPTION: &'static str = "An optional value.\n\
            \n\
            The `Option[T]` is an enum with two constructors: `Some(T)` \
            and `None`. To get the value of an `Option`, you can either match \
            on it or use the `?` operator.\n\
            \n\
            The notation `T?` is shorthand for `Option[T]`.\n\
            \n\
            For more information, see [the language reference](#lang_optionals).";

/// Documentation of a built-in item.
pub const DOC_VERDICT_TYPE: &'static str = "The \
            verdict that a filter reaches about a value, that is, \
            whether to accept or reject it.\n\
            \n\
            There are special keywords `accept` and `reject` to construct a \
            `Verdict`. For more information, see \
            [the language reference](#lang_filtermap).";

/// Documentation of a built-in item.
pub const DOC_TYPE_RESULT: &'static str = "A type that represents either success (`Ok`) or failure (`Err`).";

} // verus!
