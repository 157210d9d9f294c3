use vstd::prelude::*;

verus! {

/// Severity of a validation message, from the flags the graphics layer sets.
#[derive(Debug, Clone, Copy, PartialEq, Eq, Structural)]
pub enum Severity {
    Error,
    Warning,
    Information,
    Verbose,
    /// No known severity flag was set.
    Unknown,
}

/// Category of a validation message, from the flags the graphics layer sets.
#[derive(Debug, Clone, Copy, PartialEq, Eq, Structural)]
pub enum MessageKind {
    General,
    Validation,
    Performance,
    /// No known category flag was set.
    Unknown,
}

/// The validation layer that debug mode enables.
pub const VALIDATION_LAYER: &'static str = "VK_LAYER_LUNARG_standard_validation";

/// The most severe flag that is set wins.
pub open spec fn severity_of(error: bool, warning: bool, information: bool, verbose: bool) -> Severity {
    if error {
        Severity::Error
    } else if warning {
        Severity::Warning
    } else if information {
        Severity::Information
    } else if verbose {
        Severity::Verbose
    } else {
        Severity::Unknown
    }
}

/// The first category flag that is set, in the order general, validation,
/// performance.
pub open spec fn kind_of(general: bool, validation: bool, performance: bool) -> MessageKind {
    if general {
        MessageKind::General
    } else if validation {
        MessageKind::Validation
    } else if performance {
        MessageKind::Performance
    } else {
        MessageKind::Unknown
    }
}

pub open spec fn severity_name(s: Severity) -> Seq<char> {
    match s {
        Severity::Error => "error"@,
        Severity::Warning => "warning"@,
        Severity::Information => "information"@,
        Severity::Verbose => "verbose"@,
        Severity::Unknown => "unknown"@,
    }
}

pub open spec fn kind_name(k: MessageKind) -> Seq<char> {
    match k {
        MessageKind::General => "general"@,
        MessageKind::Validation => "validation"@,
        MessageKind::Performance => "performance"@,
        MessageKind::Unknown => "unknown"@,
    }
}

impl Severity {
    /// Decodes the severity flags of a message.
    pub fn from_flags(error: bool, warning: bool, information: bool, verbose: bool) -> (r: Severity)
        ensures
            r == severity_of(error, warning, information, verbose),
    {
        if error {
            Severity::Error
        } else if warning {
            Severity::Warning
        } else if information {
            Severity::Information
        } else if verbose {
            Severity::Verbose
        } else {
            Severity::Unknown
        }
    }

    /// The word printed for this severity.
    pub fn name(&self) -> (r: &'static str)
        ensures
            r@ == severity_name(*self),
    {
        match self {
            Severity::Error => "error",
            Severity::Warning => "warning",
            Severity::Information => "information",
            Severity::Verbose => "verbose",
            Severity::Unknown => "unknown",
        }
    }
}

impl MessageKind {
    /// Decodes the category flags of a message.
    pub fn from_flags(general: bool, validation: bool, performance: bool) -> (r: MessageKind)
        ensures
            r == kind_of(general, validation, performance),
    {
        if general {
            MessageKind::General
        } else if validation {
            MessageKind::Validation
        } else if performance {
            MessageKind::Performance
        } else {
            MessageKind::Unknown
        }
    }

    /// The word printed for this category.
    pub fn name(&self) -> (r: &'static str)
        ensures
            r@ == kind_name(*self),
    {
        match self {
            MessageKind::General => "general",
            MessageKind::Validation => "validation",
            MessageKind::Performance => "performance",
            MessageKind::Unknown => "unknown",
        }
    }
}

/// The instance layers to enable: the standard validation layer in debug
/// mode, none otherwise.
pub fn validation_layers(debug: bool) -> (r: Vec<&'static str>)
    ensures
        debug ==> r@.len() == 1 && r@[0]@ == VALIDATION_LAYER@,
        !debug ==> r@.len() == 0,
{
    let mut layers: Vec<&'static str> = Vec::new();
    if debug {
        layers.push(VALIDATION_LAYER);
    }
    layers
}

} // verus!
