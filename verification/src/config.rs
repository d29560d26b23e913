//! What the user asks for: output format, preset and matrix.
use vstd::prelude::*;
use vstd::string::*;
use vstd::utf8::is_ascii_chars;

use crate::matrix::{AmbisonicMatrix, CoherenceMatrix, DefaultMatrix, MvdrMatrix};
use crate::text::{same_text, to_lowercase};

verus! {

/// The format of the output file.
#[derive(Clone, Copy, Debug, PartialEq, Eq, Structural)]
pub enum OutputFormat {
    Wav,
    Flac,
}

/// A set of widening and rear gain.
#[derive(Clone, Copy, Debug, PartialEq, Eq, Structural)]
pub enum Preset {
    Default,
    Quadrophonic,
    Dolby,
    Horseshoe,
}

/// A matrix with its parameters.
#[derive(Debug)]
pub enum Matrix<F> {
    Default(DefaultMatrix<F>),
    Coherence(CoherenceMatrix<F>),
    Mvdr(MvdrMatrix<F>),
    Ambisonic(AmbisonicMatrix<F>),
}

/// Why a request is refused; with the word that is not known.
#[derive(Debug)]
pub enum ConfigError {
    OutputFormat(String),
    Preset(String),
    Matrix(String),
}

/// The request.
#[derive(Debug)]
pub struct Options<F> {
    /// The output format, if it is asked for by name.
    pub output_format: Option<String>,
    /// The extension of the output file, if it has one.
    pub extension: Option<String>,
    pub matrix: String,
    pub preset: String,
    pub wiener: bool,
    pub gaussian: bool,
    pub gaussian_sigma: F,
    pub coherence_radius: i32,
    pub widen_factor: F,
    pub min_amplitude: F,
    pub quiet: bool,
}

/// The fixed numbers that presets and amplitude adjustment choose from.
#[derive(Debug)]
pub struct Numbers<F> {
    /// One.
    pub one: F,
    /// Two.
    pub two: F,
    /// The square root of two.
    pub root_two: F,
    /// Half the square root of two.
    pub half_root_two: F,
    /// The widening that undoes the blend of the QS matrix.
    pub quadrophonic: F,
}

/// What was asked for, made out.
#[derive(Debug)]
pub struct Config<F> {
    pub format: OutputFormat,
    pub matrix: Matrix<F>,
}

/// The format that a word in lower case stands for.
pub open spec fn format_of(word: Seq<char>) -> Option<OutputFormat> {
    if word == "wav"@ {
        Some(OutputFormat::Wav)
    } else if word == "flac"@ {
        Some(OutputFormat::Flac)
    } else {
        None
    }
}

/// The word that tells the output format: the one asked for, else the extension, else `wav`.
pub open spec fn format_word<F>(options: Options<F>) -> Seq<char> {
    match options.output_format {
        Some(name) => name@,
        None => match options.extension {
            Some(extension) => extension@,
            None => "wav"@,
        },
    }
}

/// The preset that a word stands for.
pub open spec fn preset_of(word: Seq<char>) -> Option<Preset> {
    if word == "default"@ {
        Some(Preset::Default)
    } else if word == "qs"@ || word == "rm"@ {
        Some(Preset::Quadrophonic)
    } else if word == "dolby"@ {
        Some(Preset::Dolby)
    } else if word == "horseshoe"@ {
        Some(Preset::Horseshoe)
    } else {
        None
    }
}

/// Widening and rear gain of a preset.
pub open spec fn factors_of<F>(preset: Preset, widen_factor: F, numbers: Numbers<F>) -> (F, F) {
    match preset {
        Preset::Default => (widen_factor, numbers.one),
        Preset::Quadrophonic => (numbers.quadrophonic, numbers.one),
        Preset::Dolby => (widen_factor, numbers.root_two),
        Preset::Horseshoe => (numbers.two, numbers.one),
    }
}

/// The amplitudes are divided by this.
pub open spec fn amplitude_of<F>(quiet: bool, numbers: Numbers<F>) -> F {
    if quiet {
        numbers.one
    } else {
        numbers.half_root_two
    }
}

/// The matrix that is asked for, with its parameters.
pub open spec fn matrix_of<F>(
    options: Options<F>,
    factors: (F, F),
    amplitude_adjustment: F,
) -> Option<Matrix<F>> {
    let min_amplitude = options.min_amplitude;
    let widen_factor = factors.0;
    let rear_adjustment = factors.1;
    let coherence_radius = options.coherence_radius;
    let use_gaussian = options.gaussian;
    let gaussian_sigma = options.gaussian_sigma;
    let use_wiener = options.wiener;
    if options.matrix@ == "default"@ {
        Some(
            Matrix::Default(
                DefaultMatrix { min_amplitude, widen_factor, rear_adjustment, amplitude_adjustment },
            ),
        )
    } else if options.matrix@ == "coherence"@ {
        Some(
            Matrix::Coherence(
                CoherenceMatrix {
                    min_amplitude,
                    widen_factor,
                    rear_adjustment,
                    amplitude_adjustment,
                    coherence_radius,
                    use_gaussian,
                    gaussian_sigma,
                    use_wiener,
                },
            ),
        )
    } else if options.matrix@ == "mvdr"@ {
        Some(
            Matrix::Mvdr(
                MvdrMatrix {
                    min_amplitude,
                    widen_factor,
                    rear_adjustment,
                    amplitude_adjustment,
                    coherence_radius,
                    use_gaussian,
                    gaussian_sigma,
                },
            ),
        )
    } else if options.matrix@ == "ambisonic"@ {
        Some(
            Matrix::Ambisonic(
                AmbisonicMatrix {
                    min_amplitude,
                    widen_factor,
                    rear_adjustment,
                    amplitude_adjustment,
                    coherence_radius,
                    use_gaussian,
                    gaussian_sigma,
                },
            ),
        )
    } else {
        None
    }
}

/// What becomes of a request whose format word, in lower case, is `word`: an unknown format is
/// refused first, then an unknown preset, then an unknown matrix.
pub open spec fn configured<F>(
    word: Seq<char>,
    options: Options<F>,
    numbers: Numbers<F>,
    outcome: Result<Config<F>, ConfigError>,
) -> bool {
    match format_of(word) {
        None => outcome matches Err(ConfigError::OutputFormat(got)) && got@ == word,
        Some(format) => match preset_of(options.preset@) {
            None => outcome matches Err(ConfigError::Preset(got)) && got@ == options.preset@,
            Some(preset) => match matrix_of(
                options,
                factors_of(preset, options.widen_factor, numbers),
                amplitude_of(options.quiet, numbers),
            ) {
                None => outcome matches Err(ConfigError::Matrix(got)) && got@ == options.matrix@,
                Some(matrix) => outcome == Ok::<Config<F>, ConfigError>(Config { format, matrix }),
            },
        },
    }
}

/// The format that a word in lower case stands for.
pub fn format_named(word: &str) -> (format: Option<OutputFormat>)
    ensures
        format == format_of(word@),
        word@ == "wav"@ <==> format == Some(OutputFormat::Wav),
        word@ == "flac"@ <==> format == Some(OutputFormat::Flac),
{
    proof {
        lemma_words_differ();
    }
    if same_text(word, "wav") {
        Some(OutputFormat::Wav)
    } else if same_text(word, "flac") {
        Some(OutputFormat::Flac)
    } else {
        None
    }
}

impl Preset {
    /// The preset that a word stands for.
    pub fn named(word: &str) -> (preset: Option<Preset>)
        ensures
            preset == preset_of(word@),
            word@ == "default"@ <==> preset == Some(Preset::Default),
            word@ == "qs"@ || word@ == "rm"@ <==> preset == Some(Preset::Quadrophonic),
            word@ == "dolby"@ <==> preset == Some(Preset::Dolby),
            word@ == "horseshoe"@ <==> preset == Some(Preset::Horseshoe),
    {
        proof {
            lemma_words_differ();
        }
        if same_text(word, "default") {
            Some(Preset::Default)
        } else if same_text(word, "qs") || same_text(word, "rm") {
            Some(Preset::Quadrophonic)
        } else if same_text(word, "dolby") {
            Some(Preset::Dolby)
        } else if same_text(word, "horseshoe") {
            Some(Preset::Horseshoe)
        } else {
            None
        }
    }

    /// Widening and rear gain.
    pub fn factors<F: Copy>(self, widen_factor: F, numbers: &Numbers<F>) -> (factors: (F, F))
        ensures
            factors == factors_of(self, widen_factor, *numbers),
            self == Preset::Default || self == Preset::Dolby ==> factors.0 == widen_factor,
            self == Preset::Quadrophonic ==> factors.0 == numbers.quadrophonic,
            self == Preset::Horseshoe ==> factors.0 == numbers.two,
            self == Preset::Dolby ==> factors.1 == numbers.root_two,
            self != Preset::Dolby ==> factors.1 == numbers.one,
    {
        match self {
            Preset::Default => (widen_factor, numbers.one),
            Preset::Quadrophonic => (numbers.quadrophonic, numbers.one),
            Preset::Dolby => (widen_factor, numbers.root_two),
            Preset::Horseshoe => (numbers.two, numbers.one),
        }
    }
}

impl<F: Copy> Matrix<F> {
    /// The matrix that is asked for, with its parameters.
    pub fn requested(
        options: &Options<F>,
        factors: (F, F),
        amplitude_adjustment: F,
    ) -> (matrix: Option<Matrix<F>>)
        ensures
            matrix == matrix_of(*options, factors, amplitude_adjustment),
            options.matrix@ == "default"@ <==> matrix matches Some(Matrix::Default(_)),
            options.matrix@ == "coherence"@ <==> matrix matches Some(Matrix::Coherence(_)),
            options.matrix@ == "mvdr"@ <==> matrix matches Some(Matrix::Mvdr(_)),
            options.matrix@ == "ambisonic"@ <==> matrix matches Some(Matrix::Ambisonic(_)),
            matrix matches Some(Matrix::Default(m)) ==> m.min_amplitude == options.min_amplitude && m.widen_factor == factors.0
                && m.rear_adjustment == factors.1 && m.amplitude_adjustment == amplitude_adjustment,
            matrix matches Some(Matrix::Coherence(m)) ==> m.min_amplitude == options.min_amplitude && m.widen_factor == factors.0
                && m.rear_adjustment == factors.1 && m.amplitude_adjustment == amplitude_adjustment
                && m.coherence_radius == options.coherence_radius && m.use_gaussian
                == options.gaussian && m.gaussian_sigma == options.gaussian_sigma && m.use_wiener
                == options.wiener,
            matrix matches Some(Matrix::Mvdr(m)) ==> m.min_amplitude == options.min_amplitude && m.widen_factor == factors.0
                && m.rear_adjustment == factors.1 && m.amplitude_adjustment == amplitude_adjustment
                && m.coherence_radius == options.coherence_radius && m.use_gaussian
                == options.gaussian && m.gaussian_sigma == options.gaussian_sigma,
            matrix matches Some(Matrix::Ambisonic(m)) ==> m.min_amplitude == options.min_amplitude && m.widen_factor == factors.0
                && m.rear_adjustment == factors.1 && m.amplitude_adjustment == amplitude_adjustment
                && m.coherence_radius == options.coherence_radius && m.use_gaussian
                == options.gaussian && m.gaussian_sigma == options.gaussian_sigma,
    {
        proof {
            lemma_words_differ();
        }
        let (widen_factor, rear_adjustment) = factors;
        let name: &str = options.matrix.as_str();
        if same_text(name, "default") {
            Some(
                Matrix::Default(
                    DefaultMatrix::new(
                        options.min_amplitude,
                        widen_factor,
                        rear_adjustment,
                        amplitude_adjustment,
                    ),
                ),
            )
        } else if same_text(name, "coherence") {
            Some(
                Matrix::Coherence(
                    CoherenceMatrix::new(
                        options.min_amplitude,
                        widen_factor,
                        rear_adjustment,
                        amplitude_adjustment,
                        options.coherence_radius,
                        options.gaussian,
                        options.gaussian_sigma,
                        options.wiener,
                    ),
                ),
            )
        } else if same_text(name, "mvdr") {
            Some(
                Matrix::Mvdr(
                    MvdrMatrix::new(
                        options.min_amplitude,
                        widen_factor,
                        rear_adjustment,
                        amplitude_adjustment,
                        options.coherence_radius,
                        options.gaussian,
                        options.gaussian_sigma,
                    ),
                ),
            )
        } else if same_text(name, "ambisonic") {
            Some(
                Matrix::Ambisonic(
                    AmbisonicMatrix::new(
                        options.min_amplitude,
                        widen_factor,
                        rear_adjustment,
                        amplitude_adjustment,
                        options.coherence_radius,
                        options.gaussian,
                        options.gaussian_sigma,
                    ),
                ),
            )
        } else {
            None
        }
    }
}

/// Makes a request out whose format word, in lower case, is `word`.
pub fn configure_as<F: Copy>(
    word: &str,
    options: &Options<F>,
    numbers: &Numbers<F>,
) -> (outcome: Result<Config<F>, ConfigError>)
    ensures
        configured(word@, *options, *numbers, outcome),
        outcome matches Err(ConfigError::OutputFormat(_)) <==> word@ != "wav"@ && word@ != "flac"@,
        outcome matches Err(ConfigError::OutputFormat(got)) ==> got@ == word@,
        outcome matches Ok(config) ==> (config.format == OutputFormat::Wav <==> word@ == "wav"@),
{
    proof {
        lemma_words_differ();
    }
    let format: OutputFormat = match format_named(word) {
        Some(format) => format,
        None => {
            return Err(ConfigError::OutputFormat(word.to_owned()));
        },
    };
    let preset: Preset = match Preset::named(options.preset.as_str()) {
        Some(preset) => preset,
        None => {
            return Err(ConfigError::Preset(options.preset.clone()));
        },
    };
    let factors: (F, F) = preset.factors(options.widen_factor, numbers);
    let amplitude: F = if options.quiet {
        numbers.one
    } else {
        numbers.half_root_two
    };
    match Matrix::requested(options, factors, amplitude) {
        Some(matrix) => Ok(Config { format, matrix }),
        None => Err(ConfigError::Matrix(options.matrix.clone())),
    }
}

/// Makes a request out.
pub fn configure<F: Copy>(options: &Options<F>, numbers: &Numbers<F>) -> (outcome: Result<
    Config<F>,
    ConfigError,
>)
    ensures
        configured(crate::text::lowercase(format_word(*options)), *options, *numbers, outcome),
        is_ascii_chars(format_word(*options)) ==> configured(
            format_word(*options).map_values(|c: char| crate::text::ascii_lower(c)),
            *options,
            *numbers,
            outcome,
        ),
{
    let word: &str = match &options.output_format {
        Some(name) => name.as_str(),
        None => match &options.extension {
            Some(extension) => extension.as_str(),
            None => "wav",
        },
    };
    let lower: String = to_lowercase(word);
    configure_as(lower.as_str(), options, numbers)
}

impl ConfigError {
    /// What the user is told.
    pub open spec fn text(self) -> Seq<char> {
        match self {
            ConfigError::OutputFormat(got) => "Output format must be wav or flac (got '"@ + got@
                + "')"@,
            ConfigError::Preset(got) => "Unknown preset '"@ + got@
                + "'. Options: default | qs | dolby | horseshoe"@,
            ConfigError::Matrix(got) => "Unknown matrix '"@ + got@
                + "'. Options: default | coherence | mvdr | ambisonic"@,
        }
    }

    /// What the user is told.
    pub fn message(&self) -> (message: String)
        ensures
            message@ == self.text(),
            self matches ConfigError::OutputFormat(got) ==> message@
                == "Output format must be wav or flac (got '"@ + got@ + "')"@,
            self matches ConfigError::Preset(got) ==> message@ == "Unknown preset '"@ + got@
                + "'. Options: default | qs | dolby | horseshoe"@,
            self matches ConfigError::Matrix(got) ==> message@ == "Unknown matrix '"@ + got@
                + "'. Options: default | coherence | mvdr | ambisonic"@,
    {
        match self {
            ConfigError::OutputFormat(got) => "Output format must be wav or flac (got '".to_owned()
                .concat(got.as_str()).concat("')"),
            ConfigError::Preset(got) => "Unknown preset '".to_owned().concat(got.as_str()).concat(
                "'. Options: default | qs | dolby | horseshoe",
            ),
            ConfigError::Matrix(got) => "Unknown matrix '".to_owned().concat(got.as_str()).concat(
                "'. Options: default | coherence | mvdr | ambisonic",
            ),
        }
    }
}

/// The words that the user may use are different words.
proof fn lemma_words_differ()
    ensures
        "wav"@ != "flac"@,
        "default"@ != "qs"@ && "default"@ != "rm"@ && "default"@ != "dolby"@ && "default"@
            != "horseshoe"@,
        "qs"@ != "dolby"@ && "qs"@ != "horseshoe"@,
        "rm"@ != "dolby"@ && "rm"@ != "horseshoe"@,
        "dolby"@ != "horseshoe"@,
        "default"@ != "coherence"@ && "default"@ != "mvdr"@ && "default"@ != "ambisonic"@,
        "coherence"@ != "mvdr"@ && "coherence"@ != "ambisonic"@ && "mvdr"@ != "ambisonic"@,
{
    reveal_strlit("wav");
    reveal_strlit("flac");
    reveal_strlit("default");
    reveal_strlit("qs");
    reveal_strlit("rm");
    reveal_strlit("dolby");
    reveal_strlit("horseshoe");
    reveal_strlit("coherence");
    reveal_strlit("mvdr");
    reveal_strlit("ambisonic");
    assert("wav"@.len() == 3 && "flac"@.len() == 4);
    assert("default"@.len() == 7 && "qs"@.len() == 2 && "rm"@.len() == 2);
    assert("dolby"@.len() == 5 && "horseshoe"@.len() == 9);
    assert("coherence"@.len() == 9 && "mvdr"@.len() == 4 && "ambisonic"@.len() == 9);
    assert("coherence"@[0] == 'c' && "ambisonic"@[0] == 'a');
}

/// The matrix is the one that is asked for, and its parameters are those of the request: amplitude
/// threshold and neighbourhood as given, widening and rear gain by the preset, and the amplitudes
/// divided by one, or by half the root of two if the output is not to be quiet.
pub proof fn the_matrix_is_as_requested<F: Copy>(
    word: &str,
    options: &Options<F>,
    numbers: &Numbers<F>,
    outcome: Result<Config<F>, ConfigError>,
)
    requires
        call_ensures(configure_as::<F>, (word, options, numbers), outcome) || call_ensures(
            configure::<F>,
            (options, numbers),
            outcome,
        ),
        outcome is Ok,
    ensures
        ({
            let matrix = outcome->Ok_0.matrix;
            let widen_factor = if options.preset@ == "qs"@ || options.preset@ == "rm"@ {
                numbers.quadrophonic
            } else if options.preset@ == "horseshoe"@ {
                numbers.two
            } else {
                options.widen_factor
            };
            let rear_adjustment = if options.preset@ == "dolby"@ {
                numbers.root_two
            } else {
                numbers.one
            };
            let amplitude_adjustment = if options.quiet {
                numbers.one
            } else {
                numbers.half_root_two
            };
            &&& options.matrix@ == "default"@ <==> matrix is Default
            &&& options.matrix@ == "coherence"@ <==> matrix is Coherence
            &&& options.matrix@ == "mvdr"@ <==> matrix is Mvdr
            &&& options.matrix@ == "ambisonic"@ <==> matrix is Ambisonic
            &&& matrix matches Matrix::Default(m) ==> m.min_amplitude == options.min_amplitude && m.widen_factor
                == widen_factor && m.rear_adjustment == rear_adjustment && m.amplitude_adjustment
                == amplitude_adjustment
            &&& matrix matches Matrix::Coherence(m) ==> m.min_amplitude == options.min_amplitude && m.widen_factor
                == widen_factor && m.rear_adjustment == rear_adjustment && m.amplitude_adjustment
                == amplitude_adjustment
                && m.coherence_radius == options.coherence_radius && m.use_gaussian
                == options.gaussian && m.gaussian_sigma == options.gaussian_sigma && m.use_wiener
                == options.wiener
            &&& matrix matches Matrix::Mvdr(m) ==> m.min_amplitude == options.min_amplitude && m.widen_factor
                == widen_factor && m.rear_adjustment == rear_adjustment && m.amplitude_adjustment
                == amplitude_adjustment
                && m.coherence_radius == options.coherence_radius && m.use_gaussian
                == options.gaussian && m.gaussian_sigma == options.gaussian_sigma
            &&& matrix matches Matrix::Ambisonic(m) ==> m.min_amplitude == options.min_amplitude && m.widen_factor
                == widen_factor && m.rear_adjustment == rear_adjustment && m.amplitude_adjustment
                == amplitude_adjustment
                && m.coherence_radius == options.coherence_radius && m.use_gaussian
                == options.gaussian && m.gaussian_sigma == options.gaussian_sigma
        }),
{
    lemma_words_differ();
}

/// A request is granted if and only if its words are known; if not, the first unknown one of format,
/// preset and matrix is told.
pub proof fn unknown_words_are_refused<F: Copy>(
    word: &str,
    options: &Options<F>,
    numbers: &Numbers<F>,
    outcome: Result<Config<F>, ConfigError>,
)
    requires
        call_ensures(configure_as::<F>, (word, options, numbers), outcome),
    ensures
        ({
            let format_known = word@ == "wav"@ || word@ == "flac"@;
            let preset_known = options.preset@ == "default"@ || options.preset@ == "qs"@
                || options.preset@ == "rm"@ || options.preset@ == "dolby"@ || options.preset@
                == "horseshoe"@;
            let matrix_known = options.matrix@ == "default"@ || options.matrix@ == "coherence"@
                || options.matrix@ == "mvdr"@ || options.matrix@ == "ambisonic"@;
            &&& !format_known ==> (outcome matches Err(ConfigError::OutputFormat(got)) && got@
                == word@)
            &&& format_known && !preset_known ==> (outcome matches Err(ConfigError::Preset(got))
                && got@ == options.preset@)
            &&& format_known && preset_known && !matrix_known ==> (outcome matches Err(
                ConfigError::Matrix(got),
            ) && got@ == options.matrix@)
            &&& format_known && preset_known && matrix_known ==> outcome is Ok
            &&& outcome matches Ok(config) ==> (word@ == "wav"@ <==> config.format
                == OutputFormat::Wav) && (word@ == "flac"@ <==> config.format
                == OutputFormat::Flac)
        }),
{
    lemma_words_differ();
}

/// The format is told by the word that is asked for, else by the extension, else it is WAV; it is
/// taken in lower case, so that in a word in ASCII the letters from `A` to `Z` count as those from
/// `a` to `z`.
pub proof fn the_format_is_as_requested<F: Copy>(
    options: &Options<F>,
    numbers: &Numbers<F>,
    outcome: Result<Config<F>, ConfigError>,
    word: Seq<char>,
    lower: Seq<char>,
)
    requires
        call_ensures(configure::<F>, (options, numbers), outcome),
        options.output_format matches Some(name) ==> word == name@,
        options.output_format is None ==> (options.extension matches Some(extension) ==> word
            == extension@),
        options.output_format is None && options.extension is None ==> word == "wav"@,
        lower == crate::text::lowercase(word) || {
            &&& is_ascii_chars(word)
            &&& lower.len() == word.len()
            &&& forall|i: int|
                0 <= i < word.len() ==> #[trigger] lower[i] == if 'A' <= word[i] && word[i] <= 'Z' {
                    (word[i] as u8 + 32) as char
                } else {
                    word[i]
                }
        },
    ensures
        outcome matches Err(ConfigError::OutputFormat(_)) <==> lower != "wav"@ && lower != "flac"@,
        outcome matches Err(ConfigError::OutputFormat(got)) ==> got@ == lower,
        outcome matches Ok(config) ==> (lower == "wav"@ <==> config.format == OutputFormat::Wav) && (
        lower == "flac"@ <==> config.format == OutputFormat::Flac),
{
    lemma_words_differ();
    if lower != crate::text::lowercase(word) {
        assert(lower =~= word.map_values(|c: char| crate::text::ascii_lower(c)));
    }
}

/// A preset sets the widening, the rear gain or neither: `qs` (or `rm`) and `horseshoe` have their
/// own widening, `dolby` its own rear gain.
pub proof fn presets_set_their_factors<F: Copy>(
    word: &str,
    preset: Option<Preset>,
    widen_factor: F,
    numbers: &Numbers<F>,
    factors: (F, F),
)
    requires
        call_ensures(Preset::named, (word,), preset),
        preset is Some ==> call_ensures(
            Preset::factors::<F>,
            (preset->0, widen_factor, numbers),
            factors,
        ),
    ensures
        preset is Some <==> word@ == "default"@ || word@ == "qs"@ || word@ == "rm"@ || word@
            == "dolby"@ || word@ == "horseshoe"@,
        word@ == "default"@ ==> factors.0 == widen_factor && factors.1 == numbers.one,
        word@ == "qs"@ || word@ == "rm"@ ==> factors.0 == numbers.quadrophonic && factors.1
            == numbers.one,
        word@ == "dolby"@ ==> factors.0 == widen_factor && factors.1 == numbers.root_two,
        word@ == "horseshoe"@ ==> factors.0 == numbers.two && factors.1 == numbers.one,
{
    lemma_words_differ();
}

/// Each matrix gets the parameters that it is asked for with, each in its place.
pub proof fn each_parameter_has_its_place<F: Copy>(
    options: &Options<F>,
    factors: (F, F),
    amplitude_adjustment: F,
    matrix: Option<Matrix<F>>,
)
    requires
        call_ensures(
            Matrix::<F>::requested,
            (options, factors, amplitude_adjustment),
            matrix,
        ),
    ensures
        options.matrix@ == "default"@ <==> matrix matches Some(Matrix::Default(_)),
        options.matrix@ == "coherence"@ <==> matrix matches Some(Matrix::Coherence(_)),
        options.matrix@ == "mvdr"@ <==> matrix matches Some(Matrix::Mvdr(_)),
        options.matrix@ == "ambisonic"@ <==> matrix matches Some(Matrix::Ambisonic(_)),
        matrix matches Some(Matrix::Default(m)) ==> m.min_amplitude == options.min_amplitude && m.widen_factor == factors.0
                && m.rear_adjustment == factors.1 && m.amplitude_adjustment == amplitude_adjustment,
        matrix matches Some(Matrix::Coherence(m)) ==> m.min_amplitude == options.min_amplitude && m.widen_factor == factors.0
                && m.rear_adjustment == factors.1 && m.amplitude_adjustment == amplitude_adjustment
                && m.coherence_radius == options.coherence_radius && m.use_gaussian
                == options.gaussian && m.gaussian_sigma == options.gaussian_sigma && m.use_wiener
                == options.wiener,
        matrix matches Some(Matrix::Mvdr(m)) ==> m.min_amplitude == options.min_amplitude && m.widen_factor == factors.0
                && m.rear_adjustment == factors.1 && m.amplitude_adjustment == amplitude_adjustment
                && m.coherence_radius == options.coherence_radius && m.use_gaussian
                == options.gaussian && m.gaussian_sigma == options.gaussian_sigma,
        matrix matches Some(Matrix::Ambisonic(m)) ==> m.min_amplitude == options.min_amplitude && m.widen_factor == factors.0
                && m.rear_adjustment == factors.1 && m.amplitude_adjustment == amplitude_adjustment
                && m.coherence_radius == options.coherence_radius && m.use_gaussian
                == options.gaussian && m.gaussian_sigma == options.gaussian_sigma,
{
}

/// Formats are known by their two words.
pub proof fn formats_have_their_words(word: &str, format: Option<OutputFormat>)
    requires
        call_ensures(format_named, (word,), format),
    ensures
        word@ == "wav"@ <==> format == Some(OutputFormat::Wav),
        word@ == "flac"@ <==> format == Some(OutputFormat::Flac),
{
}

/// A refusal tells the unknown word, and the words that may be used instead.
pub proof fn refusals_name_the_word(error: ConfigError, message: String)
    requires
        call_ensures(ConfigError::message, (&error,), message),
    ensures
        error matches ConfigError::OutputFormat(got) ==> message@
            == "Output format must be wav or flac (got '"@ + got@ + "')"@,
        error matches ConfigError::Preset(got) ==> message@ == "Unknown preset '"@ + got@
            + "'. Options: default | qs | dolby | horseshoe"@,
        error matches ConfigError::Matrix(got) ==> message@ == "Unknown matrix '"@ + got@
            + "'. Options: default | coherence | mvdr | ambisonic"@,
{
}

} // verus!
