//! The diagnostics the classifier emits, and their presentation: headline,
//! labelled spans and severity.

use vstd::prelude::*;

use crate::span::Span;

verus! {

/// How serious a finding is.
#[derive(Clone, Copy, Debug, PartialEq, Eq, Structural)]
pub enum Severity {
    Advice,
    Warning,
    Error,
}

/// A finding about one redeclared binding.
#[derive(Clone, Debug, PartialEq, Eq)]
pub enum Diagnostic {
    /// A binding redeclares a name that the same scope already declares.
    Redeclare {
        /// The offending name.
        name: String,
        /// Where the name is declared again.
        redeclared: Span,
        /// Where the name was declared first.
        defined: Span,
    },
    /// A binding redeclares a name under which a built-in global exists.
    BuiltinShadow {
        /// The offending name.
        name: String,
        /// Where the name is declared.
        span: Span,
    },
}

/// The mathematical value of a [`Diagnostic`].
pub enum DiagnosticView {
    Redeclare { name: Seq<char>, redeclared: Span, defined: Span },
    BuiltinShadow { name: Seq<char>, span: Span },
}

impl View for Diagnostic {
    type V = DiagnosticView;

    open spec fn view(&self) -> DiagnosticView {
        match *self {
            Diagnostic::Redeclare { name, redeclared, defined } => DiagnosticView::Redeclare {
                name: name@,
                redeclared,
                defined,
            },
            Diagnostic::BuiltinShadow { name, span } => DiagnosticView::BuiltinShadow {
                name: name@,
                span,
            },
        }
    }
}

/// The values of a sequence of diagnostics.
pub open spec fn diagnostics_view(diagnostics: Seq<Diagnostic>) -> Seq<DiagnosticView> {
    diagnostics.map_values(|d: Diagnostic| d@)
}

/// The value of a finding that may be absent.
pub open spec fn optional_view(finding: Option<Diagnostic>) -> Option<DiagnosticView> {
    match finding {
        Some(d) => Some(d@),
        None => None,
    }
}

/// A span of the source with the remark shown beside it.
#[derive(Clone, Debug, PartialEq, Eq)]
pub struct Label {
    pub span: Span,
    pub text: String,
}

/// The mathematical value of a [`Label`].
pub struct LabelView {
    pub span: Span,
    pub text: Seq<char>,
}

impl View for Label {
    type V = LabelView;

    open spec fn view(&self) -> LabelView {
        LabelView { span: self.span, text: self.text@ }
    }
}

/// The values of a sequence of labels.
pub open spec fn labels_view(labels: Seq<Label>) -> Seq<LabelView> {
    labels.map_values(|l: Label| l@)
}

impl DiagnosticView {
    /// The offending name.
    pub open spec fn name(self) -> Seq<char> {
        match self {
            DiagnosticView::Redeclare { name, .. } => name,
            DiagnosticView::BuiltinShadow { name, .. } => name,
        }
    }

    /// The spans the finding points at: the redeclaring occurrence first,
    /// then, for an ordinary redeclaration, the earlier declaration.
    pub open spec fn spans(self) -> Seq<Span> {
        match self {
            DiagnosticView::Redeclare { redeclared, defined, .. } => seq![redeclared, defined],
            DiagnosticView::BuiltinShadow { span, .. } => seq![span],
        }
    }

    /// The span of the redeclaring occurrence.
    pub open spec fn primary_span(self) -> Span {
        match self {
            DiagnosticView::Redeclare { redeclared, .. } => redeclared,
            DiagnosticView::BuiltinShadow { span, .. } => span,
        }
    }

    /// The headline.
    pub open spec fn message(self) -> Seq<char> {
        match self {
            DiagnosticView::Redeclare { name, .. } => "eslint(no-redeclare): '"@ + name
                + "' is already defined."@,
            DiagnosticView::BuiltinShadow { name, .. } => "eslint(no-redeclare): '"@ + name
                + "' is already defined as a built-in global variable."@,
        }
    }

    /// The labelled spans, in the order of [`DiagnosticView::spans`].
    pub open spec fn labels(self) -> Seq<LabelView> {
        match self {
            DiagnosticView::Redeclare { redeclared, defined, .. } => seq![
                LabelView { span: redeclared, text: "cannot be redeclared here"@ },
                LabelView { span: defined, text: "already defined here"@ },
            ],
            DiagnosticView::BuiltinShadow { name, span } => seq![
                LabelView {
                    span,
                    text: "'"@ + name + "' is already defined as a built-in global variable."@,
                },
            ],
        }
    }
}

impl Diagnostic {
    /// The offending name.
    pub fn name(&self) -> (name: &String)
        ensures
            name@ == self@.name(),
    {
        match self {
            Diagnostic::Redeclare { name, .. } => name,
            Diagnostic::BuiltinShadow { name, .. } => name,
        }
    }

    /// The spans the finding points at.
    pub fn spans(&self) -> (spans: Vec<Span>)
        ensures
            spans@ == self@.spans(),
    {
        let mut spans: Vec<Span> = Vec::new();
        match self {
            Diagnostic::Redeclare { redeclared, defined, .. } => {
                spans.push(*redeclared);
                spans.push(*defined);
            },
            Diagnostic::BuiltinShadow { span, .. } => {
                spans.push(*span);
            },
        }
        assert(spans@ =~= self@.spans());
        spans
    }

    /// Both kinds of finding are warnings: neither stops the analysis.
    pub fn severity(&self) -> (severity: Severity)
        ensures
            severity == Severity::Warning,
    {
        Severity::Warning
    }

    /// The headline.
    pub fn message(&self) -> (message: String)
        ensures
            message@ == self@.message(),
    {
        let mut message = String::from_str("eslint(no-redeclare): '");
        match self {
            Diagnostic::Redeclare { name, .. } => {
                message.append(name.as_str());
                message.append("' is already defined.");
            },
            Diagnostic::BuiltinShadow { name, .. } => {
                message.append(name.as_str());
                message.append("' is already defined as a built-in global variable.");
            },
        }
        message
    }

    /// The labelled spans.
    pub fn labels(&self) -> (labels: Vec<Label>)
        ensures
            labels_view(labels@) == self@.labels(),
    {
        let mut labels: Vec<Label> = Vec::new();
        match self {
            Diagnostic::Redeclare { redeclared, defined, .. } => {
                labels.push(
                    Label { span: *redeclared, text: String::from_str("cannot be redeclared here") },
                );
                labels.push(Label { span: *defined, text: String::from_str("already defined here") });
            },
            Diagnostic::BuiltinShadow { name, span } => {
                let mut text = String::from_str("'");
                text.append(name.as_str());
                text.append("' is already defined as a built-in global variable.");
                labels.push(Label { span: *span, text });
            },
        }
        assert(labels_view(labels@) =~= self@.labels());
        labels
    }
}

} // verus!
