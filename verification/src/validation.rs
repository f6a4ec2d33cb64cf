//! Range validation for dimensions, monetary values and fastener
//! configurations.
//!
//! Every validator runs all of its checks and accumulates messages: the
//! blocking errors in order, then the non-blocking warnings. A result is
//! valid exactly when no error was recorded; warnings never affect
//! validity. Lengths are counts of hundredths of a centimeter and money is
//! a count of cents, as everywhere in this crate.

use vstd::prelude::*;

verus! {

/// The outcome of a validation pass: a validity flag, the blocking error
/// messages in the order the checks run, and the non-blocking warnings.
#[derive(Debug, Clone)]
pub struct ValidationResult {
    /// No blocking error was recorded.
    pub valid: bool,
    /// The blocking error messages, in check order.
    pub errors: Vec<String>,
    /// The non-blocking warnings, in check order.
    pub warnings: Vec<String>,
}

/// The error messages of a dimension check: each side must be positive and
/// at most 1000 cm (100000 hundredths).
pub open spec fn spec_dimension_errors(width: int, height: int) -> Seq<Seq<char>> {
    (if width <= 0 {
        seq!["Largura deve ser maior que zero"@]
    } else {
        Seq::empty()
    }) + (if height <= 0 {
        seq!["Altura deve ser maior que zero"@]
    } else {
        Seq::empty()
    }) + (if width > 100000 {
        seq!["Largura muito grande (máximo 1000 cm)"@]
    } else {
        Seq::empty()
    }) + (if height > 100000 {
        seq!["Altura muito grande (máximo 1000 cm)"@]
    } else {
        Seq::empty()
    })
}

/// The warnings of a dimension check: a side over 500 cm draws attention.
pub open spec fn spec_dimension_warnings(width: int, height: int) -> Seq<Seq<char>> {
    if width > 50000 || height > 50000 {
        seq!["Dimensões muito grandes, verifique se está correto"@]
    } else {
        Seq::empty()
    }
}

/// Checks a width and a height, in hundredths of a centimeter: errors when
/// a side is not positive or exceeds 1000 cm, a warning when a side
/// exceeds 500 cm. All checks run; nothing short-circuits.
pub fn validate_dimensions(width: i64, height: i64) -> (r: ValidationResult)
    ensures
        r.errors.deep_view() == spec_dimension_errors(width as int, height as int),
        r.warnings.deep_view() == spec_dimension_warnings(width as int, height as int),
        r.valid == (0 < width <= 100000 && 0 < height <= 100000),
        r.valid == (r.errors.len() == 0),
{
    let mut errors: Vec<String> = Vec::new();
    let mut warnings: Vec<String> = Vec::new();

    if width <= 0 {
        errors.push("Largura deve ser maior que zero".to_owned());
    }
    if height <= 0 {
        errors.push("Altura deve ser maior que zero".to_owned());
    }
    if width > 100000 {
        errors.push("Largura muito grande (máximo 1000 cm)".to_owned());
    }
    if height > 100000 {
        errors.push("Altura muito grande (máximo 1000 cm)".to_owned());
    }

    if width > 50000 || height > 50000 {
        warnings.push("Dimensões muito grandes, verifique se está correto".to_owned());
    }

    let valid = errors.len() == 0;
    proof {
        assert(errors.deep_view() =~= spec_dimension_errors(width as int, height as int));
        assert(warnings.deep_view() =~= spec_dimension_warnings(width as int, height as int));
    }
    ValidationResult { valid, errors, warnings }
}

/// The error messages of a money check: the amount must be positive and at
/// most 999999.99 (99999999 cents).
pub open spec fn spec_money_errors(value: int) -> Seq<Seq<char>> {
    (if value <= 0 {
        seq!["Valor deve ser maior que zero"@]
    } else {
        Seq::empty()
    }) + (if value > 99999999 {
        seq!["Valor muito alto (máximo R$ 999.999,99)"@]
    } else {
        Seq::empty()
    })
}

/// The warnings of a money check: an amount over 10000.00 draws attention.
pub open spec fn spec_money_warnings(value: int) -> Seq<Seq<char>> {
    if value > 1000000 {
        seq!["Valor alto, confirme se está correto"@]
    } else {
        Seq::empty()
    }
}

/// Checks a monetary amount in cents: errors when it is not positive or
/// exceeds 999999.99, a warning when it exceeds 10000.00.
pub fn validate_money_value(value: i64) -> (r: ValidationResult)
    ensures
        r.errors.deep_view() == spec_money_errors(value as int),
        r.warnings.deep_view() == spec_money_warnings(value as int),
        r.valid == (0 < value <= 99999999),
        r.valid == (r.errors.len() == 0),
{
    let mut errors: Vec<String> = Vec::new();
    let mut warnings: Vec<String> = Vec::new();

    if value <= 0 {
        errors.push("Valor deve ser maior que zero".to_owned());
    }
    if value > 99999999 {
        errors.push("Valor muito alto (máximo R$ 999.999,99)".to_owned());
    }

    if value > 1000000 {
        warnings.push("Valor alto, confirme se está correto".to_owned());
    }

    let valid = errors.len() == 0;
    proof {
        assert(errors.deep_view() =~= spec_money_errors(value as int));
        assert(warnings.deep_view() =~= spec_money_warnings(value as int));
    }
    ValidationResult { valid, errors, warnings }
}

/// The error messages of a fastener-configuration check: a positive count
/// of at most 100, a positive unit price, a positive spacing.
pub open spec fn spec_ilhos_errors(quantidade: int, valor_unitario: int, distancia: int) -> Seq<
    Seq<char>,
> {
    (if quantidade == 0 {
        seq!["Quantidade de ilhós deve ser maior que zero"@]
    } else {
        Seq::empty()
    }) + (if quantidade > 100 {
        seq!["Quantidade máxima de ilhós é 100"@]
    } else {
        Seq::empty()
    }) + (if valor_unitario <= 0 {
        seq!["Valor unitário deve ser maior que zero"@]
    } else {
        Seq::empty()
    }) + (if distancia <= 0 {
        seq!["Distância deve ser maior que zero"@]
    } else {
        Seq::empty()
    })
}

/// The warnings of a fastener-configuration check: a count over 50 draws
/// attention.
pub open spec fn spec_ilhos_warnings(quantidade: int) -> Seq<Seq<char>> {
    if quantidade > 50 {
        seq!["Muitos ilhós, confirme se está correto"@]
    } else {
        Seq::empty()
    }
}

/// Checks a fastener configuration: a count between 1 and 100 (a warning
/// over 50), a positive unit price in cents, a positive spacing in
/// hundredths of a centimeter.
pub fn validate_ilhos_config(quantidade: u32, valor_unitario: i64, distancia: i64) -> (r:
    ValidationResult)
    ensures
        r.errors.deep_view() == spec_ilhos_errors(
            quantidade as int,
            valor_unitario as int,
            distancia as int,
        ),
        r.warnings.deep_view() == spec_ilhos_warnings(quantidade as int),
        r.valid == (0 < quantidade <= 100 && 0 < valor_unitario && 0 < distancia),
        r.valid == (r.errors.len() == 0),
{
    let mut errors: Vec<String> = Vec::new();
    let mut warnings: Vec<String> = Vec::new();

    if quantidade == 0 {
        errors.push("Quantidade de ilhós deve ser maior que zero".to_owned());
    }
    if quantidade > 100 {
        errors.push("Quantidade máxima de ilhós é 100".to_owned());
    }
    if valor_unitario <= 0 {
        errors.push("Valor unitário deve ser maior que zero".to_owned());
    }
    if distancia <= 0 {
        errors.push("Distância deve ser maior que zero".to_owned());
    }

    if quantidade > 50 {
        warnings.push("Muitos ilhós, confirme se está correto".to_owned());
    }

    let valid = errors.len() == 0;
    proof {
        assert(errors.deep_view() =~= spec_ilhos_errors(
            quantidade as int,
            valor_unitario as int,
            distancia as int,
        ));
        assert(warnings.deep_view() =~= spec_ilhos_warnings(quantidade as int));
    }
    ValidationResult { valid, errors, warnings }
}

} // verus!
