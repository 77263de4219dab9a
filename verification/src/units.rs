use vstd::prelude::*;

use crate::intent::Capabilities;
use crate::text::{
    chars_eq, lemma_utf8_longer_prefix, str_chars, trim_bounds, trim_spec, utf8_len, utf8_len_at_most,
};

verus! {

/// The kinds of quantity a unit measures, and the other calculator
/// features; each has a capability bit.
#[derive(Clone, Copy, Debug, PartialEq, Eq, Structural)]
pub enum UnitCategory {
    Math,
    Colors,
    Currency,
    Length,
    Volume,
    Weight,
    Temperature,
    Pressure,
    Digital,
    Time,
    Area,
    Speed,
}

/// The capability bit of a category.
pub open spec fn category_mask(c: UnitCategory) -> u32 {
    match c {
        UnitCategory::Math => 1,
        UnitCategory::Colors => 2,
        UnitCategory::Currency => 4,
        UnitCategory::Length => 8,
        UnitCategory::Volume => 16,
        UnitCategory::Weight => 32,
        UnitCategory::Temperature => 64,
        UnitCategory::Pressure => 128,
        UnitCategory::Digital => 256,
        UnitCategory::Time => 512,
        UnitCategory::Area => 1024,
        UnitCategory::Speed => 2048,
    }
}

impl UnitCategory {
    /// The capability bit that allows this category.
    pub fn capability_mask(&self) -> (r: u32)
        ensures
            r == category_mask(*self),
    {
        match self {
            UnitCategory::Math => 1,
            UnitCategory::Colors => 2,
            UnitCategory::Currency => 4,
            UnitCategory::Length => 8,
            UnitCategory::Volume => 16,
            UnitCategory::Weight => 32,
            UnitCategory::Temperature => 64,
            UnitCategory::Pressure => 128,
            UnitCategory::Digital => 256,
            UnitCategory::Time => 512,
            UnitCategory::Area => 1024,
            UnitCategory::Speed => 2048,
        }
    }
}

/// A unit the calculator converts between.
#[derive(Clone, Copy, Debug, PartialEq, Eq, Structural)]
pub enum Unit {
    Usd,
    Eur,
    Jpy,
    Gbp,
    Aud,
    Cad,
    Chf,
    Cny,
    Nzd,
    Sek,
    Nok,
    Mxn,
    Sgd,
    Hkd,
    Krw,
    Pln,
    Pen,
    Millimeter,
    Centimeter,
    Meter,
    Kilometer,
    Inch,
    Feet,
    Yard,
    Mile,
    NauticalMile,
    Milliliter,
    Centiliter,
    Liter,
    Kiloliter,
    CubicMeter,
    Teaspoon,
    Tablespoon,
    FluidOunce,
    Cup,
    Pint,
    Quart,
    Gallon,
    ImperialGallon,
    Milligram,
    Gram,
    Kilogram,
    MetricTon,
    Ounce,
    Pound,
    Stone,
    ShortTon,
    LongTon,
    TroyOunce,
    Celsius,
    Fahrenheit,
    Pascal,
    Kilopascal,
    Bar,
    Atmosphere,
    Psi,
    Torr,
    Bit,
    Kilobit,
    Megabit,
    Gigabit,
    Byte,
    Kilobyte,
    Megabyte,
    Gigabyte,
    Terabyte,
    Petabyte,
    Milliseconds,
    Seconds,
    Minutes,
    Hours,
    Days,
    Weeks,
    Months,
    Years,
    SquareMeter,
    SquareKilometer,
    SquareFoot,
    SquareInch,
    Acre,
    Hectare,
    MetersPerSecond,
    KilometersPerHour,
    MilesPerHour,
    Knot,
}

/// The category of a unit.
pub open spec fn unit_category(u: Unit) -> UnitCategory {
    match u {
        Unit::Usd => UnitCategory::Currency,
        Unit::Eur => UnitCategory::Currency,
        Unit::Jpy => UnitCategory::Currency,
        Unit::Gbp => UnitCategory::Currency,
        Unit::Aud => UnitCategory::Currency,
        Unit::Cad => UnitCategory::Currency,
        Unit::Chf => UnitCategory::Currency,
        Unit::Cny => UnitCategory::Currency,
        Unit::Nzd => UnitCategory::Currency,
        Unit::Sek => UnitCategory::Currency,
        Unit::Nok => UnitCategory::Currency,
        Unit::Mxn => UnitCategory::Currency,
        Unit::Sgd => UnitCategory::Currency,
        Unit::Hkd => UnitCategory::Currency,
        Unit::Krw => UnitCategory::Currency,
        Unit::Pln => UnitCategory::Currency,
        Unit::Pen => UnitCategory::Currency,
        Unit::Millimeter => UnitCategory::Length,
        Unit::Centimeter => UnitCategory::Length,
        Unit::Meter => UnitCategory::Length,
        Unit::Kilometer => UnitCategory::Length,
        Unit::Inch => UnitCategory::Length,
        Unit::Feet => UnitCategory::Length,
        Unit::Yard => UnitCategory::Length,
        Unit::Mile => UnitCategory::Length,
        Unit::NauticalMile => UnitCategory::Length,
        Unit::Milliliter => UnitCategory::Volume,
        Unit::Centiliter => UnitCategory::Volume,
        Unit::Liter => UnitCategory::Volume,
        Unit::Kiloliter => UnitCategory::Volume,
        Unit::CubicMeter => UnitCategory::Volume,
        Unit::Teaspoon => UnitCategory::Volume,
        Unit::Tablespoon => UnitCategory::Volume,
        Unit::FluidOunce => UnitCategory::Volume,
        Unit::Cup => UnitCategory::Volume,
        Unit::Pint => UnitCategory::Volume,
        Unit::Quart => UnitCategory::Volume,
        Unit::Gallon => UnitCategory::Volume,
        Unit::ImperialGallon => UnitCategory::Volume,
        Unit::Milligram => UnitCategory::Weight,
        Unit::Gram => UnitCategory::Weight,
        Unit::Kilogram => UnitCategory::Weight,
        Unit::MetricTon => UnitCategory::Weight,
        Unit::Ounce => UnitCategory::Weight,
        Unit::Pound => UnitCategory::Weight,
        Unit::Stone => UnitCategory::Weight,
        Unit::ShortTon => UnitCategory::Weight,
        Unit::LongTon => UnitCategory::Weight,
        Unit::TroyOunce => UnitCategory::Weight,
        Unit::Celsius => UnitCategory::Temperature,
        Unit::Fahrenheit => UnitCategory::Temperature,
        Unit::Pascal => UnitCategory::Pressure,
        Unit::Kilopascal => UnitCategory::Pressure,
        Unit::Bar => UnitCategory::Pressure,
        Unit::Atmosphere => UnitCategory::Pressure,
        Unit::Psi => UnitCategory::Pressure,
        Unit::Torr => UnitCategory::Pressure,
        Unit::Bit => UnitCategory::Digital,
        Unit::Kilobit => UnitCategory::Digital,
        Unit::Megabit => UnitCategory::Digital,
        Unit::Gigabit => UnitCategory::Digital,
        Unit::Byte => UnitCategory::Digital,
        Unit::Kilobyte => UnitCategory::Digital,
        Unit::Megabyte => UnitCategory::Digital,
        Unit::Gigabyte => UnitCategory::Digital,
        Unit::Terabyte => UnitCategory::Digital,
        Unit::Petabyte => UnitCategory::Digital,
        Unit::Milliseconds => UnitCategory::Time,
        Unit::Seconds => UnitCategory::Time,
        Unit::Minutes => UnitCategory::Time,
        Unit::Hours => UnitCategory::Time,
        Unit::Days => UnitCategory::Time,
        Unit::Weeks => UnitCategory::Time,
        Unit::Months => UnitCategory::Time,
        Unit::Years => UnitCategory::Time,
        Unit::SquareMeter => UnitCategory::Area,
        Unit::SquareKilometer => UnitCategory::Area,
        Unit::SquareFoot => UnitCategory::Area,
        Unit::SquareInch => UnitCategory::Area,
        Unit::Acre => UnitCategory::Area,
        Unit::Hectare => UnitCategory::Area,
        Unit::MetersPerSecond => UnitCategory::Speed,
        Unit::KilometersPerHour => UnitCategory::Speed,
        Unit::MilesPerHour => UnitCategory::Speed,
        Unit::Knot => UnitCategory::Speed,
    }
}

/// The symbol a unit is shown with.
pub open spec fn unit_symbol(u: Unit) -> Seq<char> {
    match u {
        Unit::Usd => "$"@,
        Unit::Eur => "€"@,
        Unit::Jpy => "¥"@,
        Unit::Gbp => "£"@,
        Unit::Aud => "A$"@,
        Unit::Cad => "C$"@,
        Unit::Chf => "CHF"@,
        Unit::Cny => "¥"@,
        Unit::Nzd => "NZ$"@,
        Unit::Sek => "kr"@,
        Unit::Nok => "kr"@,
        Unit::Mxn => "Mex$"@,
        Unit::Sgd => "S$"@,
        Unit::Hkd => "HK$"@,
        Unit::Krw => "₩"@,
        Unit::Pln => "zł"@,
        Unit::Pen => "S/"@,
        Unit::Millimeter => "mm"@,
        Unit::Centimeter => "cm"@,
        Unit::Meter => "m"@,
        Unit::Kilometer => "km"@,
        Unit::Inch => "in"@,
        Unit::Feet => "ft"@,
        Unit::Yard => "yd"@,
        Unit::Mile => "mi"@,
        Unit::NauticalMile => "nmi"@,
        Unit::Milliliter => "ml"@,
        Unit::Centiliter => "cl"@,
        Unit::Liter => "l"@,
        Unit::Kiloliter => "kl"@,
        Unit::CubicMeter => "m³"@,
        Unit::Teaspoon => "tsp"@,
        Unit::Tablespoon => "tbsp"@,
        Unit::FluidOunce => "fl oz"@,
        Unit::Cup => "cup"@,
        Unit::Pint => "pt"@,
        Unit::Quart => "qt"@,
        Unit::Gallon => "gal"@,
        Unit::ImperialGallon => "imp gal"@,
        Unit::Milligram => "mg"@,
        Unit::Gram => "g"@,
        Unit::Kilogram => "kg"@,
        Unit::MetricTon => "t"@,
        Unit::Ounce => "oz"@,
        Unit::Pound => "lb"@,
        Unit::Stone => "st"@,
        Unit::ShortTon => "ton"@,
        Unit::LongTon => "ton"@,
        Unit::TroyOunce => "ozt"@,
        Unit::Celsius => "°C"@,
        Unit::Fahrenheit => "°F"@,
        Unit::Pascal => "Pa"@,
        Unit::Kilopascal => "kPa"@,
        Unit::Bar => "bar"@,
        Unit::Atmosphere => "atm"@,
        Unit::Psi => "psi"@,
        Unit::Torr => "mmHg"@,
        Unit::Bit => "bit"@,
        Unit::Kilobit => "kb"@,
        Unit::Megabit => "Mb"@,
        Unit::Gigabit => "Gb"@,
        Unit::Byte => "B"@,
        Unit::Kilobyte => "KB"@,
        Unit::Megabyte => "MB"@,
        Unit::Gigabyte => "GB"@,
        Unit::Terabyte => "TB"@,
        Unit::Petabyte => "PB"@,
        Unit::Milliseconds => "ms"@,
        Unit::Seconds => "s"@,
        Unit::Minutes => "min"@,
        Unit::Hours => "h"@,
        Unit::Days => "d"@,
        Unit::Weeks => "wk"@,
        Unit::Months => "mo"@,
        Unit::Years => "yr"@,
        Unit::SquareMeter => "m²"@,
        Unit::SquareKilometer => "km²"@,
        Unit::SquareFoot => "ft²"@,
        Unit::SquareInch => "in²"@,
        Unit::Acre => "ac"@,
        Unit::Hectare => "ha"@,
        Unit::MetersPerSecond => "m/s"@,
        Unit::KilometersPerHour => "km/h"@,
        Unit::MilesPerHour => "mph"@,
        Unit::Knot => "kn"@,
    }
}

/// The names a unit is known by.
pub open spec fn unit_aliases(u: Unit) -> Seq<Seq<char>> {
    match u {
        Unit::Usd => seq!["usd"@, "dollar"@, "dollars"@, "bucks"@, "$"@],
        Unit::Eur => seq!["eur"@, "euro"@, "euros"@, "€"@],
        Unit::Jpy => seq!["jpy"@, "yen"@, "japanese yen"@, "¥"@],
        Unit::Gbp => seq!["gbp"@, "pound"@, "pounds"@, "sterling"@, "£"@],
        Unit::Aud => seq!["aud"@, "australian dollar"@, "aussie"@, "a$"@],
        Unit::Cad => seq!["cad"@, "canadian dollar"@, "loonie"@, "c$"@],
        Unit::Chf => seq!["chf"@, "swiss franc"@, "franc"@],
        Unit::Cny => seq!["cny"@, "chinese yuan"@, "renminbi"@, "yuan"@],
        Unit::Nzd => seq!["nzd"@, "new zealand dollar"@, "kiwi"@, "nz$"@],
        Unit::Sek => seq!["sek"@, "swedish krona"@, "krona"@, "kr"@],
        Unit::Nok => seq!["nok"@, "norwegian krone"@, "krone"@],
        Unit::Mxn => seq!["mxn"@, "mexican peso"@, "peso"@, "mex$"@],
        Unit::Sgd => seq!["sgd"@, "singapore dollar"@, "s$"@],
        Unit::Hkd => seq!["hkd"@, "hong kong dollar"@, "hk$"@],
        Unit::Krw => seq!["krw"@, "south korean won"@, "won"@, "₩"@],
        Unit::Pln => seq!["pln"@, "polish"@, "złoty"@, "zł"@],
        Unit::Pen => seq!["pen"@, "peruvian"@, "sole"@, "soles"@],
        Unit::Millimeter => seq!["mm"@, "millimeter"@, "millimeters"@],
        Unit::Centimeter => seq!["cm"@, "centimeter"@, "centimeters"@],
        Unit::Meter => seq!["m"@, "meter"@, "meters"@],
        Unit::Kilometer => seq!["km"@, "kilometer"@, "kilometers"@, "kilos"@],
        Unit::Inch => seq!["in"@, "inch"@, "inches"@, "\""@],
        Unit::Feet => seq!["ft"@, "feet"@, "foot"@, "'"@],
        Unit::Yard => seq!["yd"@, "yard"@, "yards"@],
        Unit::Mile => seq!["mi"@, "mile"@, "miles"@],
        Unit::NauticalMile => seq!["nm"@, "nautical mile"@],
        Unit::Milliliter => seq!["ml"@, "milliliter"@, "milliliters"@, "cc"@],
        Unit::Centiliter => seq!["cl"@, "centiliter"@],
        Unit::Liter => seq!["l"@, "liter"@, "liters"@],
        Unit::Kiloliter => seq!["kl"@, "kiloliter"@],
        Unit::CubicMeter => seq!["m3"@, "cubic meter"@, "cubic meters"@],
        Unit::Teaspoon => seq!["tsp"@, "teaspoon"@],
        Unit::Tablespoon => seq!["tbsp"@, "tablespoon"@],
        Unit::FluidOunce => seq!["fl oz"@, "fluid ounce"@, "fluid ounces"@],
        Unit::Cup => seq!["cup"@, "cups"@],
        Unit::Pint => seq!["pt"@, "pint"@, "pints"@],
        Unit::Quart => seq!["qt"@, "quart"@, "quarts"@],
        Unit::Gallon => seq!["gal"@, "gallon"@, "gallons"@],
        Unit::ImperialGallon => seq!["imp gal"@],
        Unit::Milligram => seq!["mg"@, "milligram"@, "milligrams"@],
        Unit::Gram => seq!["g"@, "gram"@, "grams"@],
        Unit::Kilogram => seq!["kg"@, "kilogram"@, "kilograms"@, "kilo"@, "kilos"@],
        Unit::MetricTon => seq!["t"@, "tonne"@, "metric ton"@, "metric tons"@],
        Unit::Ounce => seq!["oz"@, "ounce"@, "ounces"@],
        Unit::Pound => seq!["lb"@, "lbs"@, "pound"@, "pounds"@],
        Unit::Stone => seq!["st"@, "stone"@, "stones"@],
        Unit::ShortTon => seq!["ton"@, "tons"@, "us ton"@],
        Unit::LongTon => seq!["imperial ton"@, "uk ton"@],
        Unit::TroyOunce => seq!["ozt"@, "troy ounce"@, "troy ounces"@],
        Unit::Celsius => seq!["c"@, "celsius"@, "°c"@, "°"@],
        Unit::Fahrenheit => seq!["f"@, "fahrenheit"@, "°f"@],
        Unit::Pascal => seq!["pa"@, "pascal"@, "pascals"@],
        Unit::Kilopascal => seq!["kpa"@, "kilopascal"@],
        Unit::Bar => seq!["bar"@, "bars"@],
        Unit::Atmosphere => seq!["atm"@, "atmosphere"@, "atmospheres"@],
        Unit::Psi => seq!["psi"@, "pounds per square inch"@],
        Unit::Torr => seq!["torr"@, "mmhg"@],
        Unit::Bit => seq!["bit"@, "bits"@, "b"@],
        Unit::Kilobit => seq!["kb"@, "kilobit"@],
        Unit::Megabit => seq!["mb"@, "megabit"@],
        Unit::Gigabit => seq!["gb"@, "gigabit"@],
        Unit::Byte => seq!["byte"@, "bytes"@, "B"@],
        Unit::Kilobyte => seq!["kb"@, "kilobyte"@, "KB"@],
        Unit::Megabyte => seq!["mb"@, "megabyte"@, "MB"@],
        Unit::Gigabyte => seq!["gb"@, "gigabyte"@, "GB"@],
        Unit::Terabyte => seq!["tb"@, "terabyte"@, "TB"@],
        Unit::Petabyte => seq!["pb"@, "petabyte"@, "PB"@],
        Unit::Milliseconds => seq!["ms"@, "millisecond"@, "milliseconds"@],
        Unit::Seconds => seq!["s"@, "sec"@, "second"@, "seconds"@],
        Unit::Minutes => seq!["min"@, "minute"@, "minutes"@],
        Unit::Hours => seq!["h"@, "hr"@, "hour"@, "hours"@],
        Unit::Days => seq!["d"@, "day"@, "days"@],
        Unit::Weeks => seq!["wk"@, "week"@, "weeks"@],
        Unit::Months => seq!["mo"@, "month"@, "months"@],
        Unit::Years => seq!["yr"@, "year"@, "years"@],
        Unit::SquareMeter => seq!["m2"@, "sq m"@, "sq meter"@],
        Unit::SquareKilometer => seq!["km2"@, "sq km"@],
        Unit::SquareFoot => seq!["ft2"@, "sq ft"@, "sq feet"@],
        Unit::SquareInch => seq!["in2"@, "sq in"@],
        Unit::Acre => seq!["acre"@, "acres"@],
        Unit::Hectare => seq!["ha"@, "hectare"@],
        Unit::MetersPerSecond => seq!["ms"@, "m/s"@, "meters per second"@],
        Unit::KilometersPerHour => seq!["kmh"@, "km/h"@, "kph"@],
        Unit::MilesPerHour => seq!["mph"@, "mile per hour"@, "miles per hour"@],
        Unit::Knot => seq!["kn"@, "knot"@, "knots"@],
    }
}

/// All units, in the order in which they are tried.
pub open spec fn all_units() -> Seq<Unit> {
    seq![
        Unit::Usd,
        Unit::Eur,
        Unit::Jpy,
        Unit::Gbp,
        Unit::Aud,
        Unit::Cad,
        Unit::Chf,
        Unit::Cny,
        Unit::Nzd,
        Unit::Sek,
        Unit::Nok,
        Unit::Mxn,
        Unit::Sgd,
        Unit::Hkd,
        Unit::Krw,
        Unit::Pln,
        Unit::Pen,
        Unit::Millimeter,
        Unit::Centimeter,
        Unit::Meter,
        Unit::Kilometer,
        Unit::Inch,
        Unit::Feet,
        Unit::Yard,
        Unit::Mile,
        Unit::NauticalMile,
        Unit::Milliliter,
        Unit::Centiliter,
        Unit::Liter,
        Unit::Kiloliter,
        Unit::CubicMeter,
        Unit::Teaspoon,
        Unit::Tablespoon,
        Unit::FluidOunce,
        Unit::Cup,
        Unit::Pint,
        Unit::Quart,
        Unit::Gallon,
        Unit::ImperialGallon,
        Unit::Milligram,
        Unit::Gram,
        Unit::Kilogram,
        Unit::MetricTon,
        Unit::Ounce,
        Unit::Pound,
        Unit::Stone,
        Unit::ShortTon,
        Unit::LongTon,
        Unit::TroyOunce,
        Unit::Celsius,
        Unit::Fahrenheit,
        Unit::Pascal,
        Unit::Kilopascal,
        Unit::Bar,
        Unit::Atmosphere,
        Unit::Psi,
        Unit::Torr,
        Unit::Bit,
        Unit::Kilobit,
        Unit::Megabit,
        Unit::Gigabit,
        Unit::Byte,
        Unit::Kilobyte,
        Unit::Megabyte,
        Unit::Gigabyte,
        Unit::Terabyte,
        Unit::Petabyte,
        Unit::Milliseconds,
        Unit::Seconds,
        Unit::Minutes,
        Unit::Hours,
        Unit::Days,
        Unit::Weeks,
        Unit::Months,
        Unit::Years,
        Unit::SquareMeter,
        Unit::SquareKilometer,
        Unit::SquareFoot,
        Unit::SquareInch,
        Unit::Acre,
        Unit::Hectare,
        Unit::MetersPerSecond,
        Unit::KilometersPerHour,
        Unit::MilesPerHour,
        Unit::Knot,
    ]
}

/// The category of the unit at position `i` of [`all_units`] when the units
/// are listed category by category: currency (17 units), length (9),
/// volume (13), weight (10), temperature (2), pressure (6), digital (10),
/// time (8), area (6), speed (4).
pub open spec fn block_category(i: int) -> UnitCategory {
    if i < 17 {
        UnitCategory::Currency
    } else if i < 26 {
        UnitCategory::Length
    } else if i < 39 {
        UnitCategory::Volume
    } else if i < 49 {
        UnitCategory::Weight
    } else if i < 51 {
        UnitCategory::Temperature
    } else if i < 57 {
        UnitCategory::Pressure
    } else if i < 67 {
        UnitCategory::Digital
    } else if i < 75 {
        UnitCategory::Time
    } else if i < 81 {
        UnitCategory::Area
    } else {
        UnitCategory::Speed
    }
}

/// The units are listed category by category, each category one block, in
/// the order of the categories' capability bits; so each unit measures the
/// quantity of its block (the ounce, among the weights, weighs).
pub proof fn lemma_units_by_category()
    ensures
        all_units().len() == 85,
        forall|i: int| 0 <= i < 85 ==> unit_category(#[trigger] all_units()[i]) == block_category(i),
        forall|i: int, j: int|
            0 <= i < j < 85 ==> category_mask(unit_category(#[trigger] all_units()[i])) <= category_mask(
                unit_category(#[trigger] all_units()[j]),
            ),
{
    let s = all_units();
    assert(s.len() == 85);
    assert forall|i: int| 0 <= i < 85 implies unit_category(#[trigger] s[i]) == block_category(i) by {
        if i == 0 {
        } else if i == 1 {
        } else if i == 2 {
        } else if i == 3 {
        } else if i == 4 {
        } else if i == 5 {
        } else if i == 6 {
        } else if i == 7 {
        } else if i == 8 {
        } else if i == 9 {
        } else if i == 10 {
        } else if i == 11 {
        } else if i == 12 {
        } else if i == 13 {
        } else if i == 14 {
        } else if i == 15 {
        } else if i == 16 {
        } else if i == 17 {
        } else if i == 18 {
        } else if i == 19 {
        } else if i == 20 {
        } else if i == 21 {
        } else if i == 22 {
        } else if i == 23 {
        } else if i == 24 {
        } else if i == 25 {
        } else if i == 26 {
        } else if i == 27 {
        } else if i == 28 {
        } else if i == 29 {
        } else if i == 30 {
        } else if i == 31 {
        } else if i == 32 {
        } else if i == 33 {
        } else if i == 34 {
        } else if i == 35 {
        } else if i == 36 {
        } else if i == 37 {
        } else if i == 38 {
        } else if i == 39 {
        } else if i == 40 {
        } else if i == 41 {
        } else if i == 42 {
        } else if i == 43 {
        } else if i == 44 {
        } else if i == 45 {
        } else if i == 46 {
        } else if i == 47 {
        } else if i == 48 {
        } else if i == 49 {
        } else if i == 50 {
        } else if i == 51 {
        } else if i == 52 {
        } else if i == 53 {
        } else if i == 54 {
        } else if i == 55 {
        } else if i == 56 {
        } else if i == 57 {
        } else if i == 58 {
        } else if i == 59 {
        } else if i == 60 {
        } else if i == 61 {
        } else if i == 62 {
        } else if i == 63 {
        } else if i == 64 {
        } else if i == 65 {
        } else if i == 66 {
        } else if i == 67 {
        } else if i == 68 {
        } else if i == 69 {
        } else if i == 70 {
        } else if i == 71 {
        } else if i == 72 {
        } else if i == 73 {
        } else if i == 74 {
        } else if i == 75 {
        } else if i == 76 {
        } else if i == 77 {
        } else if i == 78 {
        } else if i == 79 {
        } else if i == 80 {
        } else if i == 81 {
        } else if i == 82 {
        } else if i == 83 {
        } else if i == 84 {
        }
    }
    assert forall|i: int, j: int|
        0 <= i < j < 85 implies category_mask(unit_category(#[trigger] s[i])) <= category_mask(
            unit_category(#[trigger] s[j]),
        ) by {
        assert(unit_category(s[i]) == block_category(i));
        assert(unit_category(s[j]) == block_category(j));
    }
}

impl Unit {
    pub fn category(&self) -> (r: UnitCategory)
        ensures
            r == unit_category(*self),
    {
        match self {
            Unit::Usd => UnitCategory::Currency,
            Unit::Eur => UnitCategory::Currency,
            Unit::Jpy => UnitCategory::Currency,
            Unit::Gbp => UnitCategory::Currency,
            Unit::Aud => UnitCategory::Currency,
            Unit::Cad => UnitCategory::Currency,
            Unit::Chf => UnitCategory::Currency,
            Unit::Cny => UnitCategory::Currency,
            Unit::Nzd => UnitCategory::Currency,
            Unit::Sek => UnitCategory::Currency,
            Unit::Nok => UnitCategory::Currency,
            Unit::Mxn => UnitCategory::Currency,
            Unit::Sgd => UnitCategory::Currency,
            Unit::Hkd => UnitCategory::Currency,
            Unit::Krw => UnitCategory::Currency,
            Unit::Pln => UnitCategory::Currency,
            Unit::Pen => UnitCategory::Currency,
            Unit::Millimeter => UnitCategory::Length,
            Unit::Centimeter => UnitCategory::Length,
            Unit::Meter => UnitCategory::Length,
            Unit::Kilometer => UnitCategory::Length,
            Unit::Inch => UnitCategory::Length,
            Unit::Feet => UnitCategory::Length,
            Unit::Yard => UnitCategory::Length,
            Unit::Mile => UnitCategory::Length,
            Unit::NauticalMile => UnitCategory::Length,
            Unit::Milliliter => UnitCategory::Volume,
            Unit::Centiliter => UnitCategory::Volume,
            Unit::Liter => UnitCategory::Volume,
            Unit::Kiloliter => UnitCategory::Volume,
            Unit::CubicMeter => UnitCategory::Volume,
            Unit::Teaspoon => UnitCategory::Volume,
            Unit::Tablespoon => UnitCategory::Volume,
            Unit::FluidOunce => UnitCategory::Volume,
            Unit::Cup => UnitCategory::Volume,
            Unit::Pint => UnitCategory::Volume,
            Unit::Quart => UnitCategory::Volume,
            Unit::Gallon => UnitCategory::Volume,
            Unit::ImperialGallon => UnitCategory::Volume,
            Unit::Milligram => UnitCategory::Weight,
            Unit::Gram => UnitCategory::Weight,
            Unit::Kilogram => UnitCategory::Weight,
            Unit::MetricTon => UnitCategory::Weight,
            Unit::Ounce => UnitCategory::Weight,
            Unit::Pound => UnitCategory::Weight,
            Unit::Stone => UnitCategory::Weight,
            Unit::ShortTon => UnitCategory::Weight,
            Unit::LongTon => UnitCategory::Weight,
            Unit::TroyOunce => UnitCategory::Weight,
            Unit::Celsius => UnitCategory::Temperature,
            Unit::Fahrenheit => UnitCategory::Temperature,
            Unit::Pascal => UnitCategory::Pressure,
            Unit::Kilopascal => UnitCategory::Pressure,
            Unit::Bar => UnitCategory::Pressure,
            Unit::Atmosphere => UnitCategory::Pressure,
            Unit::Psi => UnitCategory::Pressure,
            Unit::Torr => UnitCategory::Pressure,
            Unit::Bit => UnitCategory::Digital,
            Unit::Kilobit => UnitCategory::Digital,
            Unit::Megabit => UnitCategory::Digital,
            Unit::Gigabit => UnitCategory::Digital,
            Unit::Byte => UnitCategory::Digital,
            Unit::Kilobyte => UnitCategory::Digital,
            Unit::Megabyte => UnitCategory::Digital,
            Unit::Gigabyte => UnitCategory::Digital,
            Unit::Terabyte => UnitCategory::Digital,
            Unit::Petabyte => UnitCategory::Digital,
            Unit::Milliseconds => UnitCategory::Time,
            Unit::Seconds => UnitCategory::Time,
            Unit::Minutes => UnitCategory::Time,
            Unit::Hours => UnitCategory::Time,
            Unit::Days => UnitCategory::Time,
            Unit::Weeks => UnitCategory::Time,
            Unit::Months => UnitCategory::Time,
            Unit::Years => UnitCategory::Time,
            Unit::SquareMeter => UnitCategory::Area,
            Unit::SquareKilometer => UnitCategory::Area,
            Unit::SquareFoot => UnitCategory::Area,
            Unit::SquareInch => UnitCategory::Area,
            Unit::Acre => UnitCategory::Area,
            Unit::Hectare => UnitCategory::Area,
            Unit::MetersPerSecond => UnitCategory::Speed,
            Unit::KilometersPerHour => UnitCategory::Speed,
            Unit::MilesPerHour => UnitCategory::Speed,
            Unit::Knot => UnitCategory::Speed,
        }
    }

    pub fn symbol(&self) -> (r: &'static str)
        ensures
            r@ == unit_symbol(*self),
    {
        match self {
            Unit::Usd => "$",
            Unit::Eur => "€",
            Unit::Jpy => "¥",
            Unit::Gbp => "£",
            Unit::Aud => "A$",
            Unit::Cad => "C$",
            Unit::Chf => "CHF",
            Unit::Cny => "¥",
            Unit::Nzd => "NZ$",
            Unit::Sek => "kr",
            Unit::Nok => "kr",
            Unit::Mxn => "Mex$",
            Unit::Sgd => "S$",
            Unit::Hkd => "HK$",
            Unit::Krw => "₩",
            Unit::Pln => "zł",
            Unit::Pen => "S/",
            Unit::Millimeter => "mm",
            Unit::Centimeter => "cm",
            Unit::Meter => "m",
            Unit::Kilometer => "km",
            Unit::Inch => "in",
            Unit::Feet => "ft",
            Unit::Yard => "yd",
            Unit::Mile => "mi",
            Unit::NauticalMile => "nmi",
            Unit::Milliliter => "ml",
            Unit::Centiliter => "cl",
            Unit::Liter => "l",
            Unit::Kiloliter => "kl",
            Unit::CubicMeter => "m³",
            Unit::Teaspoon => "tsp",
            Unit::Tablespoon => "tbsp",
            Unit::FluidOunce => "fl oz",
            Unit::Cup => "cup",
            Unit::Pint => "pt",
            Unit::Quart => "qt",
            Unit::Gallon => "gal",
            Unit::ImperialGallon => "imp gal",
            Unit::Milligram => "mg",
            Unit::Gram => "g",
            Unit::Kilogram => "kg",
            Unit::MetricTon => "t",
            Unit::Ounce => "oz",
            Unit::Pound => "lb",
            Unit::Stone => "st",
            Unit::ShortTon => "ton",
            Unit::LongTon => "ton",
            Unit::TroyOunce => "ozt",
            Unit::Celsius => "°C",
            Unit::Fahrenheit => "°F",
            Unit::Pascal => "Pa",
            Unit::Kilopascal => "kPa",
            Unit::Bar => "bar",
            Unit::Atmosphere => "atm",
            Unit::Psi => "psi",
            Unit::Torr => "mmHg",
            Unit::Bit => "bit",
            Unit::Kilobit => "kb",
            Unit::Megabit => "Mb",
            Unit::Gigabit => "Gb",
            Unit::Byte => "B",
            Unit::Kilobyte => "KB",
            Unit::Megabyte => "MB",
            Unit::Gigabyte => "GB",
            Unit::Terabyte => "TB",
            Unit::Petabyte => "PB",
            Unit::Milliseconds => "ms",
            Unit::Seconds => "s",
            Unit::Minutes => "min",
            Unit::Hours => "h",
            Unit::Days => "d",
            Unit::Weeks => "wk",
            Unit::Months => "mo",
            Unit::Years => "yr",
            Unit::SquareMeter => "m²",
            Unit::SquareKilometer => "km²",
            Unit::SquareFoot => "ft²",
            Unit::SquareInch => "in²",
            Unit::Acre => "ac",
            Unit::Hectare => "ha",
            Unit::MetersPerSecond => "m/s",
            Unit::KilometersPerHour => "km/h",
            Unit::MilesPerHour => "mph",
            Unit::Knot => "kn",
        }
    }

    /// The names this unit is known by.
    pub fn aliases(&self) -> (r: Vec<&'static str>)
        ensures
            r@.map_values(|s: &str| s@) == unit_aliases(*self),
    {
        match self {
            Unit::Usd => {
                let v = vec!["usd", "dollar", "dollars", "bucks", "$"];
                assert(v@.map_values(|s: &str| s@) =~= unit_aliases(Unit::Usd));
                v
            },
            Unit::Eur => {
                let v = vec!["eur", "euro", "euros", "€"];
                assert(v@.map_values(|s: &str| s@) =~= unit_aliases(Unit::Eur));
                v
            },
            Unit::Jpy => {
                let v = vec!["jpy", "yen", "japanese yen", "¥"];
                assert(v@.map_values(|s: &str| s@) =~= unit_aliases(Unit::Jpy));
                v
            },
            Unit::Gbp => {
                let v = vec!["gbp", "pound", "pounds", "sterling", "£"];
                assert(v@.map_values(|s: &str| s@) =~= unit_aliases(Unit::Gbp));
                v
            },
            Unit::Aud => {
                let v = vec!["aud", "australian dollar", "aussie", "a$"];
                assert(v@.map_values(|s: &str| s@) =~= unit_aliases(Unit::Aud));
                v
            },
            Unit::Cad => {
                let v = vec!["cad", "canadian dollar", "loonie", "c$"];
                assert(v@.map_values(|s: &str| s@) =~= unit_aliases(Unit::Cad));
                v
            },
            Unit::Chf => {
                let v = vec!["chf", "swiss franc", "franc"];
                assert(v@.map_values(|s: &str| s@) =~= unit_aliases(Unit::Chf));
                v
            },
            Unit::Cny => {
                let v = vec!["cny", "chinese yuan", "renminbi", "yuan"];
                assert(v@.map_values(|s: &str| s@) =~= unit_aliases(Unit::Cny));
                v
            },
            Unit::Nzd => {
                let v = vec!["nzd", "new zealand dollar", "kiwi", "nz$"];
                assert(v@.map_values(|s: &str| s@) =~= unit_aliases(Unit::Nzd));
                v
            },
            Unit::Sek => {
                let v = vec!["sek", "swedish krona", "krona", "kr"];
                assert(v@.map_values(|s: &str| s@) =~= unit_aliases(Unit::Sek));
                v
            },
            Unit::Nok => {
                let v = vec!["nok", "norwegian krone", "krone"];
                assert(v@.map_values(|s: &str| s@) =~= unit_aliases(Unit::Nok));
                v
            },
            Unit::Mxn => {
                let v = vec!["mxn", "mexican peso", "peso", "mex$"];
                assert(v@.map_values(|s: &str| s@) =~= unit_aliases(Unit::Mxn));
                v
            },
            Unit::Sgd => {
                let v = vec!["sgd", "singapore dollar", "s$"];
                assert(v@.map_values(|s: &str| s@) =~= unit_aliases(Unit::Sgd));
                v
            },
            Unit::Hkd => {
                let v = vec!["hkd", "hong kong dollar", "hk$"];
                assert(v@.map_values(|s: &str| s@) =~= unit_aliases(Unit::Hkd));
                v
            },
            Unit::Krw => {
                let v = vec!["krw", "south korean won", "won", "₩"];
                assert(v@.map_values(|s: &str| s@) =~= unit_aliases(Unit::Krw));
                v
            },
            Unit::Pln => {
                let v = vec!["pln", "polish", "złoty", "zł"];
                assert(v@.map_values(|s: &str| s@) =~= unit_aliases(Unit::Pln));
                v
            },
            Unit::Pen => {
                let v = vec!["pen", "peruvian", "sole", "soles"];
                assert(v@.map_values(|s: &str| s@) =~= unit_aliases(Unit::Pen));
                v
            },
            Unit::Millimeter => {
                let v = vec!["mm", "millimeter", "millimeters"];
                assert(v@.map_values(|s: &str| s@) =~= unit_aliases(Unit::Millimeter));
                v
            },
            Unit::Centimeter => {
                let v = vec!["cm", "centimeter", "centimeters"];
                assert(v@.map_values(|s: &str| s@) =~= unit_aliases(Unit::Centimeter));
                v
            },
            Unit::Meter => {
                let v = vec!["m", "meter", "meters"];
                assert(v@.map_values(|s: &str| s@) =~= unit_aliases(Unit::Meter));
                v
            },
            Unit::Kilometer => {
                let v = vec!["km", "kilometer", "kilometers", "kilos"];
                assert(v@.map_values(|s: &str| s@) =~= unit_aliases(Unit::Kilometer));
                v
            },
            Unit::Inch => {
                let v = vec!["in", "inch", "inches", "\""];
                assert(v@.map_values(|s: &str| s@) =~= unit_aliases(Unit::Inch));
                v
            },
            Unit::Feet => {
                let v = vec!["ft", "feet", "foot", "'"];
                assert(v@.map_values(|s: &str| s@) =~= unit_aliases(Unit::Feet));
                v
            },
            Unit::Yard => {
                let v = vec!["yd", "yard", "yards"];
                assert(v@.map_values(|s: &str| s@) =~= unit_aliases(Unit::Yard));
                v
            },
            Unit::Mile => {
                let v = vec!["mi", "mile", "miles"];
                assert(v@.map_values(|s: &str| s@) =~= unit_aliases(Unit::Mile));
                v
            },
            Unit::NauticalMile => {
                let v = vec!["nm", "nautical mile"];
                assert(v@.map_values(|s: &str| s@) =~= unit_aliases(Unit::NauticalMile));
                v
            },
            Unit::Milliliter => {
                let v = vec!["ml", "milliliter", "milliliters", "cc"];
                assert(v@.map_values(|s: &str| s@) =~= unit_aliases(Unit::Milliliter));
                v
            },
            Unit::Centiliter => {
                let v = vec!["cl", "centiliter"];
                assert(v@.map_values(|s: &str| s@) =~= unit_aliases(Unit::Centiliter));
                v
            },
            Unit::Liter => {
                let v = vec!["l", "liter", "liters"];
                assert(v@.map_values(|s: &str| s@) =~= unit_aliases(Unit::Liter));
                v
            },
            Unit::Kiloliter => {
                let v = vec!["kl", "kiloliter"];
                assert(v@.map_values(|s: &str| s@) =~= unit_aliases(Unit::Kiloliter));
                v
            },
            Unit::CubicMeter => {
                let v = vec!["m3", "cubic meter", "cubic meters"];
                assert(v@.map_values(|s: &str| s@) =~= unit_aliases(Unit::CubicMeter));
                v
            },
            Unit::Teaspoon => {
                let v = vec!["tsp", "teaspoon"];
                assert(v@.map_values(|s: &str| s@) =~= unit_aliases(Unit::Teaspoon));
                v
            },
            Unit::Tablespoon => {
                let v = vec!["tbsp", "tablespoon"];
                assert(v@.map_values(|s: &str| s@) =~= unit_aliases(Unit::Tablespoon));
                v
            },
            Unit::FluidOunce => {
                let v = vec!["fl oz", "fluid ounce", "fluid ounces"];
                assert(v@.map_values(|s: &str| s@) =~= unit_aliases(Unit::FluidOunce));
                v
            },
            Unit::Cup => {
                let v = vec!["cup", "cups"];
                assert(v@.map_values(|s: &str| s@) =~= unit_aliases(Unit::Cup));
                v
            },
            Unit::Pint => {
                let v = vec!["pt", "pint", "pints"];
                assert(v@.map_values(|s: &str| s@) =~= unit_aliases(Unit::Pint));
                v
            },
            Unit::Quart => {
                let v = vec!["qt", "quart", "quarts"];
                assert(v@.map_values(|s: &str| s@) =~= unit_aliases(Unit::Quart));
                v
            },
            Unit::Gallon => {
                let v = vec!["gal", "gallon", "gallons"];
                assert(v@.map_values(|s: &str| s@) =~= unit_aliases(Unit::Gallon));
                v
            },
            Unit::ImperialGallon => {
                let v = vec!["imp gal"];
                assert(v@.map_values(|s: &str| s@) =~= unit_aliases(Unit::ImperialGallon));
                v
            },
            Unit::Milligram => {
                let v = vec!["mg", "milligram", "milligrams"];
                assert(v@.map_values(|s: &str| s@) =~= unit_aliases(Unit::Milligram));
                v
            },
            Unit::Gram => {
                let v = vec!["g", "gram", "grams"];
                assert(v@.map_values(|s: &str| s@) =~= unit_aliases(Unit::Gram));
                v
            },
            Unit::Kilogram => {
                let v = vec!["kg", "kilogram", "kilograms", "kilo", "kilos"];
                assert(v@.map_values(|s: &str| s@) =~= unit_aliases(Unit::Kilogram));
                v
            },
            Unit::MetricTon => {
                let v = vec!["t", "tonne", "metric ton", "metric tons"];
                assert(v@.map_values(|s: &str| s@) =~= unit_aliases(Unit::MetricTon));
                v
            },
            Unit::Ounce => {
                let v = vec!["oz", "ounce", "ounces"];
                assert(v@.map_values(|s: &str| s@) =~= unit_aliases(Unit::Ounce));
                v
            },
            Unit::Pound => {
                let v = vec!["lb", "lbs", "pound", "pounds"];
                assert(v@.map_values(|s: &str| s@) =~= unit_aliases(Unit::Pound));
                v
            },
            Unit::Stone => {
                let v = vec!["st", "stone", "stones"];
                assert(v@.map_values(|s: &str| s@) =~= unit_aliases(Unit::Stone));
                v
            },
            Unit::ShortTon => {
                let v = vec!["ton", "tons", "us ton"];
                assert(v@.map_values(|s: &str| s@) =~= unit_aliases(Unit::ShortTon));
                v
            },
            Unit::LongTon => {
                let v = vec!["imperial ton", "uk ton"];
                assert(v@.map_values(|s: &str| s@) =~= unit_aliases(Unit::LongTon));
                v
            },
            Unit::TroyOunce => {
                let v = vec!["ozt", "troy ounce", "troy ounces"];
                assert(v@.map_values(|s: &str| s@) =~= unit_aliases(Unit::TroyOunce));
                v
            },
            Unit::Celsius => {
                let v = vec!["c", "celsius", "°c", "°"];
                assert(v@.map_values(|s: &str| s@) =~= unit_aliases(Unit::Celsius));
                v
            },
            Unit::Fahrenheit => {
                let v = vec!["f", "fahrenheit", "°f"];
                assert(v@.map_values(|s: &str| s@) =~= unit_aliases(Unit::Fahrenheit));
                v
            },
            Unit::Pascal => {
                let v = vec!["pa", "pascal", "pascals"];
                assert(v@.map_values(|s: &str| s@) =~= unit_aliases(Unit::Pascal));
                v
            },
            Unit::Kilopascal => {
                let v = vec!["kpa", "kilopascal"];
                assert(v@.map_values(|s: &str| s@) =~= unit_aliases(Unit::Kilopascal));
                v
            },
            Unit::Bar => {
                let v = vec!["bar", "bars"];
                assert(v@.map_values(|s: &str| s@) =~= unit_aliases(Unit::Bar));
                v
            },
            Unit::Atmosphere => {
                let v = vec!["atm", "atmosphere", "atmospheres"];
                assert(v@.map_values(|s: &str| s@) =~= unit_aliases(Unit::Atmosphere));
                v
            },
            Unit::Psi => {
                let v = vec!["psi", "pounds per square inch"];
                assert(v@.map_values(|s: &str| s@) =~= unit_aliases(Unit::Psi));
                v
            },
            Unit::Torr => {
                let v = vec!["torr", "mmhg"];
                assert(v@.map_values(|s: &str| s@) =~= unit_aliases(Unit::Torr));
                v
            },
            Unit::Bit => {
                let v = vec!["bit", "bits", "b"];
                assert(v@.map_values(|s: &str| s@) =~= unit_aliases(Unit::Bit));
                v
            },
            Unit::Kilobit => {
                let v = vec!["kb", "kilobit"];
                assert(v@.map_values(|s: &str| s@) =~= unit_aliases(Unit::Kilobit));
                v
            },
            Unit::Megabit => {
                let v = vec!["mb", "megabit"];
                assert(v@.map_values(|s: &str| s@) =~= unit_aliases(Unit::Megabit));
                v
            },
            Unit::Gigabit => {
                let v = vec!["gb", "gigabit"];
                assert(v@.map_values(|s: &str| s@) =~= unit_aliases(Unit::Gigabit));
                v
            },
            Unit::Byte => {
                let v = vec!["byte", "bytes", "B"];
                assert(v@.map_values(|s: &str| s@) =~= unit_aliases(Unit::Byte));
                v
            },
            Unit::Kilobyte => {
                let v = vec!["kb", "kilobyte", "KB"];
                assert(v@.map_values(|s: &str| s@) =~= unit_aliases(Unit::Kilobyte));
                v
            },
            Unit::Megabyte => {
                let v = vec!["mb", "megabyte", "MB"];
                assert(v@.map_values(|s: &str| s@) =~= unit_aliases(Unit::Megabyte));
                v
            },
            Unit::Gigabyte => {
                let v = vec!["gb", "gigabyte", "GB"];
                assert(v@.map_values(|s: &str| s@) =~= unit_aliases(Unit::Gigabyte));
                v
            },
            Unit::Terabyte => {
                let v = vec!["tb", "terabyte", "TB"];
                assert(v@.map_values(|s: &str| s@) =~= unit_aliases(Unit::Terabyte));
                v
            },
            Unit::Petabyte => {
                let v = vec!["pb", "petabyte", "PB"];
                assert(v@.map_values(|s: &str| s@) =~= unit_aliases(Unit::Petabyte));
                v
            },
            Unit::Milliseconds => {
                let v = vec!["ms", "millisecond", "milliseconds"];
                assert(v@.map_values(|s: &str| s@) =~= unit_aliases(Unit::Milliseconds));
                v
            },
            Unit::Seconds => {
                let v = vec!["s", "sec", "second", "seconds"];
                assert(v@.map_values(|s: &str| s@) =~= unit_aliases(Unit::Seconds));
                v
            },
            Unit::Minutes => {
                let v = vec!["min", "minute", "minutes"];
                assert(v@.map_values(|s: &str| s@) =~= unit_aliases(Unit::Minutes));
                v
            },
            Unit::Hours => {
                let v = vec!["h", "hr", "hour", "hours"];
                assert(v@.map_values(|s: &str| s@) =~= unit_aliases(Unit::Hours));
                v
            },
            Unit::Days => {
                let v = vec!["d", "day", "days"];
                assert(v@.map_values(|s: &str| s@) =~= unit_aliases(Unit::Days));
                v
            },
            Unit::Weeks => {
                let v = vec!["wk", "week", "weeks"];
                assert(v@.map_values(|s: &str| s@) =~= unit_aliases(Unit::Weeks));
                v
            },
            Unit::Months => {
                let v = vec!["mo", "month", "months"];
                assert(v@.map_values(|s: &str| s@) =~= unit_aliases(Unit::Months));
                v
            },
            Unit::Years => {
                let v = vec!["yr", "year", "years"];
                assert(v@.map_values(|s: &str| s@) =~= unit_aliases(Unit::Years));
                v
            },
            Unit::SquareMeter => {
                let v = vec!["m2", "sq m", "sq meter"];
                assert(v@.map_values(|s: &str| s@) =~= unit_aliases(Unit::SquareMeter));
                v
            },
            Unit::SquareKilometer => {
                let v = vec!["km2", "sq km"];
                assert(v@.map_values(|s: &str| s@) =~= unit_aliases(Unit::SquareKilometer));
                v
            },
            Unit::SquareFoot => {
                let v = vec!["ft2", "sq ft", "sq feet"];
                assert(v@.map_values(|s: &str| s@) =~= unit_aliases(Unit::SquareFoot));
                v
            },
            Unit::SquareInch => {
                let v = vec!["in2", "sq in"];
                assert(v@.map_values(|s: &str| s@) =~= unit_aliases(Unit::SquareInch));
                v
            },
            Unit::Acre => {
                let v = vec!["acre", "acres"];
                assert(v@.map_values(|s: &str| s@) =~= unit_aliases(Unit::Acre));
                v
            },
            Unit::Hectare => {
                let v = vec!["ha", "hectare"];
                assert(v@.map_values(|s: &str| s@) =~= unit_aliases(Unit::Hectare));
                v
            },
            Unit::MetersPerSecond => {
                let v = vec!["ms", "m/s", "meters per second"];
                assert(v@.map_values(|s: &str| s@) =~= unit_aliases(Unit::MetersPerSecond));
                v
            },
            Unit::KilometersPerHour => {
                let v = vec!["kmh", "km/h", "kph"];
                assert(v@.map_values(|s: &str| s@) =~= unit_aliases(Unit::KilometersPerHour));
                v
            },
            Unit::MilesPerHour => {
                let v = vec!["mph", "mile per hour", "miles per hour"];
                assert(v@.map_values(|s: &str| s@) =~= unit_aliases(Unit::MilesPerHour));
                v
            },
            Unit::Knot => {
                let v = vec!["kn", "knot", "knots"];
                assert(v@.map_values(|s: &str| s@) =~= unit_aliases(Unit::Knot));
                v
            },
        }
    }
}

/// All units, in the order in which they are tried.
pub fn units_in_order() -> (r: Vec<Unit>)
    ensures
        r@ == all_units(),
{
    let r = vec![
        Unit::Usd,
        Unit::Eur,
        Unit::Jpy,
        Unit::Gbp,
        Unit::Aud,
        Unit::Cad,
        Unit::Chf,
        Unit::Cny,
        Unit::Nzd,
        Unit::Sek,
        Unit::Nok,
        Unit::Mxn,
        Unit::Sgd,
        Unit::Hkd,
        Unit::Krw,
        Unit::Pln,
        Unit::Pen,
        Unit::Millimeter,
        Unit::Centimeter,
        Unit::Meter,
        Unit::Kilometer,
        Unit::Inch,
        Unit::Feet,
        Unit::Yard,
        Unit::Mile,
        Unit::NauticalMile,
        Unit::Milliliter,
        Unit::Centiliter,
        Unit::Liter,
        Unit::Kiloliter,
        Unit::CubicMeter,
        Unit::Teaspoon,
        Unit::Tablespoon,
        Unit::FluidOunce,
        Unit::Cup,
        Unit::Pint,
        Unit::Quart,
        Unit::Gallon,
        Unit::ImperialGallon,
        Unit::Milligram,
        Unit::Gram,
        Unit::Kilogram,
        Unit::MetricTon,
        Unit::Ounce,
        Unit::Pound,
        Unit::Stone,
        Unit::ShortTon,
        Unit::LongTon,
        Unit::TroyOunce,
        Unit::Celsius,
        Unit::Fahrenheit,
        Unit::Pascal,
        Unit::Kilopascal,
        Unit::Bar,
        Unit::Atmosphere,
        Unit::Psi,
        Unit::Torr,
        Unit::Bit,
        Unit::Kilobit,
        Unit::Megabit,
        Unit::Gigabit,
        Unit::Byte,
        Unit::Kilobyte,
        Unit::Megabyte,
        Unit::Gigabyte,
        Unit::Terabyte,
        Unit::Petabyte,
        Unit::Milliseconds,
        Unit::Seconds,
        Unit::Minutes,
        Unit::Hours,
        Unit::Days,
        Unit::Weeks,
        Unit::Months,
        Unit::Years,
        Unit::SquareMeter,
        Unit::SquareKilometer,
        Unit::SquareFoot,
        Unit::SquareInch,
        Unit::Acre,
        Unit::Hectare,
        Unit::MetersPerSecond,
        Unit::KilometersPerHour,
        Unit::MilesPerHour,
        Unit::Knot,
    ];
    assert(r@ =~= all_units());
    r
}

/// Names what `str::to_lowercase` gives: each character replaced by its
/// Unicode lower-case mapping.
pub uninterp spec fn lowercase_of(s: Seq<char>) -> Seq<char>;

/// std's `str::to_lowercase`. Claimed: the result is `lowercase_of` of the
/// argument; nothing is claimed of what that is.
#[verifier::external_body]
pub(crate) fn to_lowercase(s: &str) -> (r: String)
    ensures
        r@ == lowercase_of(s@),
{
    s.to_lowercase()
}

/// Whether `s` starts with `p`.
pub open spec fn begins_with(s: Seq<char>, p: Seq<char>) -> bool {
    s.len() >= p.len() && s.take(p.len() as int) == p
}

/// The first unit of `units` that `p` holds of.
pub open spec fn first_where(units: Seq<Unit>, p: spec_fn(Unit) -> bool) -> Option<Unit>
    decreases units.len(),
{
    if units.len() == 0 {
        None
    } else {
        match first_where(units.drop_last(), p) {
            Some(u) => Some(u),
            None => if p(units.last()) {
                Some(units.last())
            } else {
                None
            },
        }
    }
}

/// Some name of `u` starts with `s` and is longer (in UTF-8 bytes).
pub open spec fn has_longer_alias(u: Unit, s: Seq<char>) -> bool {
    exists|i: int|
        0 <= i < unit_aliases(u).len() && utf8_len(#[trigger] unit_aliases(u)[i]) > utf8_len(s)
            && begins_with(unit_aliases(u)[i], s)
}

/// Some name of `u` starts with `s`.
pub open spec fn has_alias_starting(u: Unit, s: Seq<char>) -> bool {
    exists|i: int| 0 <= i < unit_aliases(u).len() && begins_with(#[trigger] unit_aliases(u)[i], s)
}

/// The category of `u` is allowed by `caps`.
pub open spec fn allowed(caps: u32, u: Unit) -> bool {
    caps & category_mask(unit_category(u)) != 0
}

/// Which units a search considers.
#[derive(Clone, Copy, Debug, PartialEq, Eq, Structural)]
pub enum UnitScope {
    /// Those whose category the capability mask allows.
    Allowed(u32),
    /// Those of one category.
    Category(UnitCategory),
}

/// How a unit's names are held against a name.
#[derive(Clone, Copy, Debug, PartialEq, Eq, Structural)]
pub enum NameTest {
    /// One of them is the name.
    Exact,
    /// One of them is longer and starts with the name.
    LongerPrefix,
    /// One of them starts with the name.
    Prefix,
}

/// `u` is in the scope and passes the test on `l`.
pub open spec fn unit_filter(scope: UnitScope, test: NameTest, l: Seq<char>) -> spec_fn(Unit) -> bool {
    |u: Unit|
        (match scope {
            UnitScope::Allowed(caps) => allowed(caps, u),
            UnitScope::Category(c) => unit_category(u) == c,
        }) && (match test {
            NameTest::Exact => unit_aliases(u).contains(l),
            NameTest::LongerPrefix => has_longer_alias(u, l),
            NameTest::Prefix => has_alias_starting(u, l),
        })
}

/// The unit a name stands for among the allowed categories: the first unit
/// one of whose names is the name lowered; failing that, for a name of at
/// least three bytes, the first with a longer name that starts with it.
pub open spec fn parse_with_caps_spec(s: Seq<char>, caps: u32) -> Option<Unit> {
    let t = trim_spec(s);
    let l = lowercase_of(t);
    if t.len() == 0 {
        None
    } else {
        match first_where(all_units(), unit_filter(UnitScope::Allowed(caps), NameTest::Exact, l)) {
            Some(u) => Some(u),
            None => if utf8_len(l) >= 3 {
                first_where(all_units(), unit_filter(UnitScope::Allowed(caps), NameTest::LongerPrefix, l))
            } else {
                None
            },
        }
    }
}

/// The unit of category `cat` a name stands for: the first whose names hold
/// the name lowered; failing that, for a name of at least two bytes, the
/// first with a name that starts with it.
pub open spec fn parse_in_category_spec(s: Seq<char>, cat: UnitCategory) -> Option<Unit> {
    let l = lowercase_of(trim_spec(s));
    if l.len() == 0 {
        None
    } else {
        match first_where(all_units(), unit_filter(UnitScope::Category(cat), NameTest::Exact, l)) {
            Some(u) => Some(u),
            None => if utf8_len(l) >= 2 {
                first_where(all_units(), unit_filter(UnitScope::Category(cat), NameTest::Prefix, l))
            } else {
                None
            },
        }
    }
}

fn begins_with_vec(s: &Vec<char>, p: &Vec<char>) -> (r: bool)
    ensures
        r == begins_with(s@, p@),
{
    if s.len() < p.len() {
        return false;
    }
    let mut i: usize = 0;
    while i < p.len()
        invariant
            p@.len() <= s@.len(),
            i <= p@.len(),
            forall|j: int| 0 <= j < i ==> s@[j] == p@[j],
        decreases p.len() - i,
    {
        if s[i] != p[i] {
            assert(s@.take(p@.len() as int)[i as int] != p@[i as int]);
            return false;
        }
        i += 1;
    }
    assert(s@.take(p@.len() as int) == p@);
    true
}

/// How a unit's names meet the name `l`: one is `l`; one is longer and
/// starts with it; one starts with it.
fn alias_matches(u: Unit, l: &Vec<char>) -> (r: (bool, bool, bool))
    ensures
        r.0 == unit_aliases(u).contains(l@),
        r.1 == has_longer_alias(u, l@),
        r.2 == has_alias_starting(u, l@),
{
    let names = u.aliases();
    let ghost ns = names@.map_values(|s: &str| s@);
    let mut exact = false;
    let mut longer = false;
    let mut starting = false;
    let mut i: usize = 0;
    while i < names.len()
        invariant
            i <= names@.len(),
            ns == names@.map_values(|s: &str| s@),
            ns == unit_aliases(u),
            exact <==> exists|j: int| 0 <= j < i && #[trigger] ns[j] == l@,
            longer <==> exists|j: int|
                0 <= j < i && utf8_len(#[trigger] ns[j]) > utf8_len(l@) && begins_with(ns[j], l@),
            starting <==> exists|j: int| 0 <= j < i && begins_with(#[trigger] ns[j], l@),
        decreases names.len() - i,
    {
        let a = str_chars(names[i]);
        assert(ns[i as int] == a@);
        if chars_eq(&a, l) {
            exact = true;
        }
        if begins_with_vec(&a, l) {
            starting = true;
            proof {
                lemma_utf8_longer_prefix(a@, l@);
            }
            if a.len() > l.len() {
                longer = true;
            }
        }
        i += 1;
    }
    (exact, longer, starting)
}

/// The first unit in order that is in `scope` and passes `test` on `l`.
fn first_unit(l: &Vec<char>, test: NameTest, scope: UnitScope) -> (r: Option<Unit>)
    ensures
        r == first_where(all_units(), unit_filter(scope, test, l@)),
{
    let ghost p = unit_filter(scope, test, l@);
    let units = units_in_order();
    let mut i: usize = 0;
    while i < units.len()
        invariant
            i <= units@.len(),
            units@ == all_units(),
            p == unit_filter(scope, test, l@),
            first_where(units@.take(i as int), p) is None,
        decreases units.len() - i,
    {
        let u = units[i];
        let in_scope = match scope {
            UnitScope::Category(c) => u.category() == c,
            UnitScope::Allowed(caps) => (caps & u.category().capability_mask()) != 0,
        };
        assert(units@.take(i + 1).drop_last() == units@.take(i as int));
        assert(units@.take(i + 1).last() == u);
        let (exact, longer, starting) = alias_matches(u, l);
        let hit = in_scope && match test {
            NameTest::Exact => exact,
            NameTest::LongerPrefix => longer,
            NameTest::Prefix => starting,
        };
        assert(hit == p(u));
        if hit {
            proof {
                lemma_first_where_prefix(units@, p, i + 1);
            }
            return Some(u);
        }
        i += 1;
    }
    assert(units@.take(units@.len() as int) == units@);
    None
}

proof fn lemma_first_where_prefix(units: Seq<Unit>, p: spec_fn(Unit) -> bool, k: int)
    requires
        0 <= k <= units.len(),
        first_where(units.take(k), p) is Some,
    ensures
        first_where(units, p) == first_where(units.take(k), p),
    decreases units.len(),
{
    if k < units.len() {
        assert(units.drop_last().take(k) == units.take(k));
        lemma_first_where_prefix(units.drop_last(), p, k);
    } else {
        assert(units.take(k) == units);
    }
}

fn trimmed_chars(s: &str) -> (r: Vec<char>)
    ensures
        r@ == trim_spec(s@),
{
    let v = str_chars(s);
    let (b, e) = trim_bounds(&v, 0, v.len());
    assert(v@.subrange(0, v@.len() as int) == v@);
    let mut out: Vec<char> = Vec::new();
    let mut i = b;
    while i < e
        invariant
            b <= i <= e <= v@.len(),
            out@ == v@.subrange(b as int, i as int),
        decreases e - i,
    {
        out.push(v[i]);
        i += 1;
    }
    out
}

impl Unit {
    /// The unit a name stands for, among the categories `caps` allows.
    pub fn parse_with_capabilities(s: &str, caps: &Capabilities) -> (r: Option<Unit>)
        ensures
            r == parse_with_caps_spec(s@, caps.0),
    {
        let t = trimmed_chars(s);
        if t.len() == 0 {
            return None;
        }
        let ts: String = crate::text::string_from_chars(t.as_slice());
        let lower = to_lowercase(ts.as_str());
        let l = str_chars(lower.as_str());
        let exact = first_unit(&l, NameTest::Exact, UnitScope::Allowed(caps.0));
        if exact.is_some() {
            return exact;
        }
        if utf8_len_at_most(&l, 2) {
            return None;
        }
        first_unit(&l, NameTest::LongerPrefix, UnitScope::Allowed(caps.0))
    }

    /// The unit of category `cat` a name stands for.
    pub fn parse_in_category(s: &str, cat: UnitCategory) -> (r: Option<Unit>)
        ensures
            r == parse_in_category_spec(s@, cat),
    {
        let t = trimmed_chars(s);
        let ts: String = crate::text::string_from_chars(t.as_slice());
        let lower = to_lowercase(ts.as_str());
        let l = str_chars(lower.as_str());
        if l.len() == 0 {
            return None;
        }
        let exact = first_unit(&l, NameTest::Exact, UnitScope::Category(cat));
        if exact.is_some() {
            return exact;
        }
        if utf8_len_at_most(&l, 1) {
            return None;
        }
        first_unit(&l, NameTest::Prefix, UnitScope::Category(cat))
    }
}

proof fn lemma_first_where_holds(units: Seq<Unit>, p: spec_fn(Unit) -> bool)
    ensures
        first_where(units, p) matches Some(u) ==> p(u) && units.contains(u),
    decreases units.len(),
{
    if units.len() > 0 {
        lemma_first_where_holds(units.drop_last(), p);
        if let Some(u) = first_where(units.drop_last(), p) {
            let i = choose|i: int| 0 <= i < units.drop_last().len() && units.drop_last()[i] == u;
            assert(units[i] == u);
        } else {
            assert(units[units.len() - 1] == units.last());
        }
    }
}

/// A unit read with capabilities is of a category they allow.
pub proof fn lemma_parsed_unit_allowed(s: Seq<char>, caps: u32)
    ensures
        parse_with_caps_spec(s, caps) matches Some(u) ==> allowed(caps, u),
{
    let l = lowercase_of(trim_spec(s));
    lemma_first_where_holds(all_units(), unit_filter(UnitScope::Allowed(caps), NameTest::Exact, l));
    lemma_first_where_holds(
        all_units(),
        unit_filter(UnitScope::Allowed(caps), NameTest::LongerPrefix, l),
    );
}

/// A unit read within a category is of that category.
pub proof fn lemma_parsed_unit_in_category(s: Seq<char>, cat: UnitCategory)
    ensures
        parse_in_category_spec(s, cat) matches Some(u) ==> unit_category(u) == cat,
{
    let l = lowercase_of(trim_spec(s));
    lemma_first_where_holds(all_units(), unit_filter(UnitScope::Category(cat), NameTest::Exact, l));
    lemma_first_where_holds(all_units(), unit_filter(UnitScope::Category(cat), NameTest::Prefix, l));
}

} // verus!
