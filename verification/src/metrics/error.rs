use vstd::prelude::*;
use vstd::string::*;

verus! {

/// Errors of the metrics endpoints.
#[derive(Debug, Clone)]
pub enum MetricsError {
    K8sClient(String),
    MetricsServerUnavailable(String),
    ParseError(String),
    Internal(String),
}

impl MetricsError {
    /// The human-readable description of the error.
    pub open spec fn message_spec(&self) -> Seq<char> {
        match self {
            MetricsError::K8sClient(s) => "Kubernetes client error: "@ + s@,
            MetricsError::MetricsServerUnavailable(s) => "Metrics server unavailable: "@ + s@,
            MetricsError::ParseError(s) => "Failed to parse resource quantity: "@ + s@,
            MetricsError::Internal(s) => "Internal error: "@ + s@,
        }
    }

    /// The human-readable description of the error.
    pub fn message(&self) -> (m: String)
        ensures
            m@ == self.message_spec(),
    {
        let (prefix, detail) = match self {
            MetricsError::K8sClient(s) => ("Kubernetes client error: ", s),
            MetricsError::MetricsServerUnavailable(s) => ("Metrics server unavailable: ", s),
            MetricsError::ParseError(s) => ("Failed to parse resource quantity: ", s),
            MetricsError::Internal(s) => ("Internal error: ", s),
        };
        let mut m = String::new();
        m.append(prefix);
        m.append(detail.as_str());
        assert(m@ =~= self.message_spec());
        m
    }

    /// The error for a failed list call to the metrics server: `not_found` (the API
    /// answered 404) means the metrics server is not installed; any other failure is a
    /// client error carrying the failure's text.
    pub fn from_list_failure(not_found: bool, text: String) -> (e: MetricsError)
        ensures
            not_found ==> e is MetricsServerUnavailable && e->MetricsServerUnavailable_0@
                == "metrics-server not found"@,
            !not_found ==> e is K8sClient && e->K8sClient_0@ == text@,
    {
        if not_found {
            let mut s = String::new();
            s.append("metrics-server not found");
            MetricsError::MetricsServerUnavailable(s)
        } else {
            MetricsError::K8sClient(text)
        }
    }

    /// The HTTP status an endpoint answers with for this error: 503 when the
    /// metrics server is unavailable, 500 otherwise.
    pub fn status_code(&self) -> (code: u16)
        ensures
            code == (if self is MetricsServerUnavailable {
                503u16
            } else {
                500u16
            }),
    {
        match self {
            MetricsError::MetricsServerUnavailable(_) => 503,
            _ => 500,
        }
    }
}

} // verus!
