//! Size limits on upstream discovery responses (model listings): the
//! configured limit, the check of a declared `Content-Length`, and the
//! running check of a body read chunk by chunk.
use vstd::prelude::*;
use crate::decimal::{all_ascii_digits, all_digits, decimal_of, parse_usize, parse_usize_spec, u64_to_decimal};
use crate::text::{chars_of, push_chars, push_lit, string_from_chars, string_of, trim, trim_vec};

verus! {

/// The limit used when none is configured: 16 MiB.
pub const DEFAULT_UPSTREAM_DISCOVERY_MAX_BYTES: usize = 16_777_216;

/// The limit a configured value gives: the value trimmed, when it is a
/// non-empty run of ASCII digits naming a positive `usize`; else the default.
pub open spec fn discovery_limit(raw: Option<Seq<char>>) -> usize {
    match raw {
        Some(s) => {
            let t = trim(s);
            if t.len() > 0 && all_digits(t) && (parse_usize_spec(t) matches Some(v) && v > 0) {
                parse_usize_spec(t)->0
            } else {
                DEFAULT_UPSTREAM_DISCOVERY_MAX_BYTES
            }
        },
        None => DEFAULT_UPSTREAM_DISCOVERY_MAX_BYTES,
    }
}

/// The discovery size limit from the configured text, if any.
pub fn upstream_discovery_max_bytes_from_raw(raw: Option<&str>) -> (r: usize)
    ensures
        r == discovery_limit(match raw {
            Some(s) => Some(s@),
            None => None,
        }),
{
    match raw {
        None => DEFAULT_UPSTREAM_DISCOVERY_MAX_BYTES,
        Some(s) => {
            let t = trim_vec(&chars_of(s));
            if t.len() == 0 || !all_ascii_digits(&t) {
                return DEFAULT_UPSTREAM_DISCOVERY_MAX_BYTES;
            }
            let text = string_from_chars(&t);
            match parse_usize(text.as_str()) {
                Some(v) => if v > 0 {
                    v
                } else {
                    DEFAULT_UPSTREAM_DISCOVERY_MAX_BYTES
                },
                None => DEFAULT_UPSTREAM_DISCOVERY_MAX_BYTES,
            }
        },
    }
}

/// Why a discovery response body was refused.
#[derive(Clone, Debug)]
pub enum BoundedResponseError {
    /// The response declared a length above the limit.
    DeclaredLengthExceeded { content_length: u64, max_bytes: usize },
    /// The body grew past the limit while it was read.
    StreamedLengthExceeded { max_bytes: usize },
    /// Reading the body failed; the transport's description.
    BodyRead { message: String },
}

/// The text of a refusal.
pub open spec fn bounded_error_text(e: BoundedResponseError) -> Seq<char> {
    match e {
        BoundedResponseError::DeclaredLengthExceeded { content_length, max_bytes } =>
            "upstream discovery response exceeds the "@ + decimal_of(max_bytes as nat)
            + "-byte limit: Content-Length is "@ + decimal_of(content_length as nat),
        BoundedResponseError::StreamedLengthExceeded { max_bytes } =>
            "upstream discovery response exceeds the "@ + decimal_of(max_bytes as nat)
            + "-byte limit while reading the body"@,
        BoundedResponseError::BodyRead { message } =>
            "failed to read upstream discovery response body: "@ + message@,
    }
}

impl BoundedResponseError {
    /// Whether the refusal is about size rather than transport.
    pub fn is_limit_exceeded(&self) -> (r: bool)
        ensures
            r == !(self is BodyRead),
    {
        match self {
            BoundedResponseError::DeclaredLengthExceeded { .. } => true,
            BoundedResponseError::StreamedLengthExceeded { .. } => true,
            BoundedResponseError::BodyRead { .. } => false,
        }
    }

    /// The refusal as text.
    pub fn message(&self) -> (r: String)
        ensures
            r@ == bounded_error_text(*self),
    {
        match self {
            BoundedResponseError::DeclaredLengthExceeded { content_length, max_bytes } => {
                let mut out = string_of("upstream discovery response exceeds the ");
                push_chars(&mut out, &u64_to_decimal(*max_bytes as u64));
                push_lit(&mut out, "-byte limit: Content-Length is ");
                push_chars(&mut out, &u64_to_decimal(*content_length));
                out
            },
            BoundedResponseError::StreamedLengthExceeded { max_bytes } => {
                let mut out = string_of("upstream discovery response exceeds the ");
                push_chars(&mut out, &u64_to_decimal(*max_bytes as u64));
                push_lit(&mut out, "-byte limit while reading the body");
                out
            },
            BoundedResponseError::BodyRead { message } => {
                let mut out = string_of("failed to read upstream discovery response body: ");
                push_lit(&mut out, message.as_str());
                out
            },
        }
    }
}

/// A body being read under a size limit: how much was accepted so far.
pub struct BodyLimit {
    max_bytes: usize,
    received: usize,
}

impl BodyLimit {
    /// Never more accepted than the limit.
    #[verifier::type_invariant]
    closed spec fn within_limit(self) -> bool {
        self.received <= self.max_bytes
    }

    /// The limit.
    pub closed spec fn limit(self) -> nat {
        self.max_bytes as nat
    }

    /// The bytes accepted so far.
    pub closed spec fn accepted(self) -> nat {
        self.received as nat
    }

    /// Starts reading a body under `max_bytes`, refusing a response whose
    /// declared `Content-Length` is already above it.
    pub fn start(max_bytes: usize, content_length: Option<u64>) -> (r: Result<BodyLimit, BoundedResponseError>)
        ensures
            match content_length {
                Some(n) if n > max_bytes => r matches Err(
                    BoundedResponseError::DeclaredLengthExceeded { content_length: c, max_bytes: m },
                ) && c == n && m == max_bytes,
                _ => r matches Ok(b) && b.limit() == max_bytes && b.accepted() == 0,
            },
    {
        match content_length {
            Some(n) => if n > max_bytes as u64 {
                return Err(BoundedResponseError::DeclaredLengthExceeded { content_length: n, max_bytes });
            },
            None => {},
        }
        Ok(BodyLimit { max_bytes, received: 0 })
    }

    /// Accepts the next chunk of `len` bytes when the body stays within the
    /// limit; refuses it otherwise, leaving the count as it was.
    pub fn accept_chunk(&mut self, len: usize) -> (r: Result<(), BoundedResponseError>)
        ensures
            final(self).limit() == old(self).limit(),
            old(self).accepted() + len <= old(self).limit() ==> r is Ok && final(self).accepted()
                == old(self).accepted() + len,
            old(self).accepted() + len > old(self).limit() ==> (r matches Err(
                BoundedResponseError::StreamedLengthExceeded { max_bytes: m },
            ) && m == old(self).limit() && final(self).accepted() == old(self).accepted()),
            final(self).accepted() <= final(self).limit(),
    {
        proof {
            use_type_invariant(&*self);
        }
        if len > self.max_bytes - self.received {
            return Err(BoundedResponseError::StreamedLengthExceeded { max_bytes: self.max_bytes });
        }
        self.received = self.received + len;
        proof {
            use_type_invariant(&*self);
        }
        Ok(())
    }

    /// The bytes accepted so far.
    pub fn received(&self) -> (r: usize)
        ensures
            r == self.accepted(),
            r <= self.limit(),
    {
        proof {
            use_type_invariant(self);
        }
        self.received
    }
}

} // verus!
