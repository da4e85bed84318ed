//! What the screen shows: lines of text, parts of which are coloured.

use vstd::prelude::*;

use crate::active_notes;
use crate::active_notes::ActiveNotes;
use crate::arp::ArpPattern;
use crate::arpeggiator::ArpModel;
use crate::chord;
use crate::chord::detect_chord;
use crate::controls::Controls;
use crate::fraction;
use crate::fraction::{count_tenths, ONE};
use crate::keyboard;
use crate::keyboard::{key_to_pitch_class, lists_key, note_name};
use crate::scale;
use crate::scale::{scale_notes, Scale, ROOT_COUNT};
use crate::session::{Session, Transport};
use crate::tape::TapeModel;
use crate::text;
use crate::text::{bar, decimal, halves, join, padded, signed, to_capital};
use crate::waveform::Waveform;

verus! {

/// The colours that the screen uses.
#[derive(Clone, Copy, PartialEq, Eq, Structural, Debug)]
pub enum Color {
    Black,
    White,
    Yellow,
    DarkGreen,
    Cyan,
    Blue,
    Magenta,
    Green,
    Red,
}

/// What a part of a line consists of.
#[derive(Debug)]
pub enum Content {
    Words(String),
    Letter(char),
}

impl View for Content {
    type V = Seq<char>;

    open spec fn view(&self) -> Seq<char> {
        match *self {
            Content::Words(words) => words@,
            Content::Letter(letter) => seq![letter],
        }
    }
}

/// A part of a line in one colour, or in that of the terminal.
#[derive(Debug)]
pub struct Span {
    pub content: Content,
    pub foreground: Option<Color>,
    pub background: Option<Color>,
}

/// A part of a line as mathematical values.
#[verifier::ext_equal]
pub struct SpanModel {
    pub text: Seq<char>,
    pub foreground: Option<Color>,
    pub background: Option<Color>,
}

impl View for Span {
    type V = SpanModel;

    open spec fn view(&self) -> SpanModel {
        SpanModel {
            text: self.content@,
            foreground: self.foreground,
            background: self.background,
        }
    }
}

/// Text in the colours of the terminal.
pub open spec fn plain(text: Seq<char>) -> SpanModel {
    SpanModel { text, foreground: None, background: None }
}

/// Text in a colour if some effect is on, and in the colours of the terminal otherwise.
pub open spec fn tinted(text: Seq<char>, on: bool, color: Color) -> SpanModel {
    SpanModel {
        text,
        foreground: if on {
            Some(color)
        } else {
            None
        },
        background: None,
    }
}

/// The parts of a line as mathematical values.
pub open spec fn line_view(line: Seq<Span>) -> Seq<SpanModel> {
    line.map_values(|span: Span| span@)
}

/// The lines of a screen as mathematical values.
pub open spec fn screen_view(lines: Seq<Vec<Span>>) -> Seq<Seq<SpanModel>> {
    lines.map_values(|line: Vec<Span>| line_view(line@))
}

fn plain_span(words: String) -> (span: Span)
    ensures
        span@ == plain(words@),
{
    Span { content: Content::Words(words), foreground: None, background: None }
}

fn tinted_span(words: String, on: bool, color: Color) -> (span: Span)
    ensures
        span@ == tinted(words@, on, color),
{
    let foreground = if on { Some(color) } else { None };
    Span { content: Content::Words(words), foreground, background: None }
}

/// How a key is drawn: its capital, on yellow while it is pressed, and else on green if it belongs
/// to the scale.
pub open spec fn key_model(key: char, pressed: bool, in_scale: bool) -> SpanModel {
    let text = seq![text::capital(key)];
    if pressed {
        SpanModel {
            text,
            foreground: Some(Color::Black),
            background: Some(Color::Yellow),
        }
    } else if in_scale {
        SpanModel {
            text,
            foreground: Some(Color::White),
            background: Some(Color::DarkGreen),
        }
    } else {
        plain(text)
    }
}

/// Whether a key plays one of the listed pitch classes.
pub open spec fn is_listed(key: char, classes: Seq<u8>) -> bool {
    match keyboard::pitch_class(key) {
        Some(pc) => classes.contains(pc),
        None => false,
    }
}

fn lists_class(classes: &Vec<u8>, class: u8) -> (yes: bool)
    ensures
        yes == classes@.contains(class),
{
    for i in 0..classes.len()
        invariant
            forall|j: int| 0 <= j < i ==> classes@[j] != class,
    {
        if classes[i] == class {
            return true;
        }
    }
    false
}

/// Draws a key, given the keys that are pressed and the pitch classes of the scale.
pub fn write_key(key: char, pressed: &Vec<char>, scale_notes: &Vec<u8>) -> (span: Span)
    ensures
        span@ == key_model(key, pressed@.contains(key), is_listed(key, scale_notes@)),
{
    let content = Content::Letter(to_capital(key));
    let in_scale = match key_to_pitch_class(key) {
        Some(pc) => lists_class(scale_notes, pc),
        None => false,
    };
    if lists_key(pressed, key) {
        Span { content, foreground: Some(Color::Black), background: Some(Color::Yellow) }
    } else if in_scale {
        Span { content, foreground: Some(Color::White), background: Some(Color::DarkGreen) }
    } else {
        Span { content, foreground: None, background: None }
    }
}

/// The line on the octave shift.
pub open spec fn octave_label(octave: int) -> Seq<char> {
    if octave == 0 {
        "Octave:  0  (default)"@
    } else if octave > 0 {
        "Octave: +"@ + text::signed_text(octave) + "  (Z/X to shift)"@
    } else {
        "Octave: "@ + text::signed_text(octave) + "  (Z/X to shift)"@
    }
}

fn write_octave(octave: i32) -> (label: String)
    ensures
        label@ == octave_label(octave as int),
{
    if octave == 0 {
        "Octave:  0  (default)".to_string()
    } else if octave > 0 {
        join("Octave: +", signed(octave).as_str(), "  (Z/X to shift)")
    } else {
        join("Octave: ", signed(octave).as_str(), "  (Z/X to shift)")
    }
}

/// The line on the transposition.
pub open spec fn transpose_label(transpose: int) -> Seq<char> {
    if transpose == 0 {
        "Transpose:  0 semitones  (PgUp/PgDn)"@
    } else if transpose > 0 {
        "Transpose: +"@ + text::signed_text(transpose) + " semitones  (PgUp/PgDn)"@
    } else {
        "Transpose: "@ + text::signed_text(transpose) + " semitones  (PgUp/PgDn)"@
    }
}

fn write_transpose(transpose: i32) -> (label: String)
    ensures
        label@ == transpose_label(transpose as int),
{
    if transpose == 0 {
        "Transpose:  0 semitones  (PgUp/PgDn)".to_string()
    } else if transpose > 0 {
        join("Transpose: +", signed(transpose).as_str(), " semitones  (PgUp/PgDn)")
    } else {
        join("Transpose: ", signed(transpose).as_str(), " semitones  (PgUp/PgDn)")
    }
}

/// The line on the velocity.
pub open spec fn velocity_label(level: int) -> Seq<char> {
    "Velocity: "@ + text::bar_text(level, 9) + "  ("@ + text::decimal_text(level as nat)
        + "/9 — keys 1-9)"@
}

fn write_velocity(level: u8) -> (label: String)
    ensures
        label@ == velocity_label(level as int),
{
    let mut label = join("Velocity: ", bar(level, 9).as_str(), "  (");
    label.append(decimal(level as u64).as_str());
    label.append("/9 — keys 1-9)");
    label
}

/// The line on the pedal.
pub open spec fn pedal_label(down: bool) -> Seq<char> {
    if down {
        "Pedal: DOWN"@
    } else {
        "Pedal: up  "@
    }
}

fn write_pedal(down: bool) -> (label: String)
    ensures
        label@ == pedal_label(down),
{
    if down {
        "Pedal: DOWN".to_string()
    } else {
        "Pedal: up  ".to_string()
    }
}

/// The line on the waveform.
pub open spec fn waveform_label(waveform: Waveform) -> Seq<char> {
    "Waveform: "@ + waveform.title() + "  ([ to cycle)"@
}

/// The line on the reverb, of so many tenths.
pub open spec fn reverb_label(tenths: int) -> Seq<char> {
    "Reverb:   "@ + text::bar_text(tenths, 8) + "  (- / = to adjust)"@
}

/// The line on the delay, with a feedback of so many tenths.
pub open spec fn delay_label(on: bool, feedback: int) -> Seq<char> {
    if on {
        "Delay:    ON   fb: "@ + text::bar_text(feedback, 7) + "  (E=off, ◄►=feedback)"@
    } else {
        "Delay:    off  fb: "@ + text::bar_text(feedback, 7) + "  (E to enable, ◄►=feedback)"@
    }
}

fn write_delay(on: bool, feedback: u8) -> (label: String)
    ensures
        label@ == delay_label(on, feedback as int),
{
    let boxes = bar(feedback, 7);
    if on {
        join("Delay:    ON   fb: ", boxes.as_str(), "  (E=off, ◄►=feedback)")
    } else {
        join("Delay:    off  fb: ", boxes.as_str(), "  (E to enable, ◄►=feedback)")
    }
}

/// The line on the tremolo.
pub open spec fn tremolo_label(on: bool, rate: int) -> Seq<char> {
    if on {
        "Tremolo:  ON   "@ + text::halves_text(rate) + " Hz  (V=off, B/N=rate)"@
    } else {
        "Tremolo:  off  "@ + text::halves_text(rate) + " Hz  (V to enable, B/N=rate)"@
    }
}

fn write_tremolo(on: bool, rate: u8) -> (label: String)
    ensures
        label@ == tremolo_label(on, rate as int),
{
    let hertz = halves(rate);
    if on {
        join("Tremolo:  ON   ", hertz.as_str(), " Hz  (V=off, B/N=rate)")
    } else {
        join("Tremolo:  off  ", hertz.as_str(), " Hz  (V to enable, B/N=rate)")
    }
}

/// The line on the vibrato.
pub open spec fn vibrato_label(on: bool, rate: int) -> Seq<char> {
    if on {
        "Vibrato:  ON   "@ + text::halves_text(rate) + " Hz  (C=off, M/,=rate)"@
    } else {
        "Vibrato:  off  "@ + text::halves_text(rate) + " Hz  (C to enable, M/,=rate)"@
    }
}

fn write_vibrato(on: bool, rate: u8) -> (label: String)
    ensures
        label@ == vibrato_label(on, rate as int),
{
    let hertz = halves(rate);
    if on {
        join("Vibrato:  ON   ", hertz.as_str(), " Hz  (C=off, M/,=rate)")
    } else {
        join("Vibrato:  off  ", hertz.as_str(), " Hz  (C to enable, M/,=rate)")
    }
}

/// The line on the scale.
pub open spec fn scale_label(scale: Scale, root: int) -> Seq<char> {
    "Scale:    "@ + keyboard::class_name(root) + " "@ + scale.title()
        + "  (] = scale, \\ = root)"@
}

fn write_scale(scale: Scale, root: usize) -> (label: String)
    requires
        root < 12,
    ensures
        label@ == scale_label(scale, root as int),
{
    let mut label = join("Scale:    ", note_name(root as u8), " ");
    label.append(scale.name());
    label.append("  (] = scale, \\ = root)");
    label
}

/// The line on the arpeggiator.
pub open spec fn arp_label(on: bool, bpm: int, pattern: ArpPattern) -> Seq<char> {
    if on {
        "Arp:      ON   "@ + text::decimal_text(bpm as nat) + " BPM  "@ + pattern.title()
            + "  (Tab=off, ↑↓=BPM, `=pattern)"@
    } else {
        "Arp:      off  (Tab to enable)"@
    }
}

fn write_arp(on: bool, bpm: u32, pattern: ArpPattern) -> (label: String)
    ensures
        label@ == arp_label(on, bpm as int, pattern),
{
    if on {
        let mut label = join("Arp:      ON   ", decimal(bpm as u64).as_str(), " BPM  ");
        label.append(pattern.name());
        label.append("  (Tab=off, ↑↓=BPM, `=pattern)");
        label
    } else {
        "Arp:      off  (Tab to enable)".to_string()
    }
}

/// The line on the tape.
pub open spec fn tape_label(transport: Transport, recording: bool, events: nat) -> Seq<char> {
    if transport.looping {
        "Tape: LOOPING  ("@ + text::decimal_text(events) + " events)  — Y to stop"@
    } else if transport.playing {
        "Tape: playing once...  — P to stop"@
    } else if recording {
        "Tape: RECORDING  ("@ + text::decimal_text(events) + " events)  — R to stop"@
    } else {
        "Tape: "@ + text::decimal_text(events)
            + " events stored  — R=record  P=play once  Y=loop"@
    }
}

/// The colours of the line on the tape.
pub open spec fn tape_model(transport: Transport, recording: bool, events: nat) -> SpanModel {
    let text = tape_label(transport, recording, events);
    if transport.looping {
        SpanModel {
            text,
            foreground: Some(Color::Green),
            background: Some(Color::DarkGreen),
        }
    } else if recording {
        tinted(text, true, Color::Red)
    } else {
        tinted(text, transport.playing, Color::Green)
    }
}

fn write_tape(transport: Transport, recording: bool, events: usize) -> (span: Span)
    ensures
        span@ == tape_model(transport, recording, events as nat),
{
    let count = decimal(events as u64);
    let label = if transport.looping {
        join("Tape: LOOPING  (", count.as_str(), " events)  — Y to stop")
    } else if transport.playing {
        "Tape: playing once...  — P to stop".to_string()
    } else if recording {
        join("Tape: RECORDING  (", count.as_str(), " events)  — R to stop")
    } else {
        join("Tape: ", count.as_str(), " events stored  — R=record  P=play once  Y=loop")
    };
    if transport.looping {
        Span {
            content: Content::Words(label),
            foreground: Some(Color::Green),
            background: Some(Color::DarkGreen),
        }
    } else if recording {
        tinted_span(label, true, Color::Red)
    } else {
        tinted_span(label, transport.playing, Color::Green)
    }
}

/// The white keys from left to right.
pub open spec fn white_keys() -> Seq<Option<char>> {
    seq![
        Some('a'), Some('s'), Some('d'), Some('f'), Some('g'),
        Some('h'), Some('j'), Some('k'), Some('l'), Some(';'),
    ]
}

/// The black keys from left to right, each above the white key to its left.
pub open spec fn black_keys() -> Seq<Option<char>> {
    seq![
        Some('w'), None, Some('r'), None, Some('t'),
        Some('u'), Some('i'), None, Some('o'), None,
    ]
}

/// A place in a row of keys: a key and a gap, or a blank.
pub open spec fn slot_model(slot: Option<char>, controls: Controls, pressed: Seq<char>) -> Seq<
    SpanModel,
> {
    match slot {
        Some(key) => seq![
            key_model(
                key,
                pressed.contains(key),
                scale::is_highlighted(
                    key,
                    controls.scale,
                    controls.root_idx as int,
                    controls.transpose as int,
                ),
            ),
            plain("  "@),
        ],
        None => seq![plain("   "@)],
    }
}

/// A row of keys behind its title.
pub open spec fn row_model(
    title: Seq<char>,
    slots: Seq<Option<char>>,
    controls: Controls,
    pressed: Seq<char>,
) -> Seq<SpanModel>
    decreases slots.len(),
{
    if slots.len() == 0 {
        seq![plain(title)]
    } else {
        row_model(title, slots.drop_last(), controls, pressed) + slot_model(
            slots.last(),
            controls,
            pressed,
        )
    }
}

/// The line on the chord.
pub open spec fn chord_model(name: Seq<char>) -> Seq<SpanModel> {
    if name.len() == 0 {
        seq![plain("  Chord:   —"@)]
    } else {
        seq![plain("  Chord:   "@), tinted(text::padded_text(name, 16), true, Color::Cyan)]
    }
}

/// A line with one text, indented.
pub open spec fn indented(text: Seq<char>) -> Seq<SpanModel> {
    seq![plain("  "@ + text)]
}

/// A line with one part of its own colour, indented.
pub open spec fn indented_span(span: SpanModel) -> Seq<SpanModel> {
    seq![plain("  "@), span]
}

/// The upper part of the screen: the title, the keyboard and the chord.
pub open spec fn keyboard_model(controls: Controls, pressed: Seq<char>) -> Seq<Seq<SpanModel>> {
    seq![
        seq![plain(""@)],
        seq![plain("  Terminal Piano"@)],
        seq![plain(""@)],
        row_model("  White:  "@, white_keys(), controls, pressed),
        row_model("  Black:  "@, black_keys(), controls, pressed),
        seq![plain(""@)],
        chord_model(chord::chord_name(chord::sounding(pressed, controls.transpose as int))),
        seq![plain(""@)],
    ]
}

/// The lines on how the keys sound.
pub open spec fn settings_model(controls: Controls) -> Seq<Seq<SpanModel>> {
    seq![
        indented(octave_label(controls.octave as int)),
        indented_span(
            tinted(
                transpose_label(controls.transpose as int),
                controls.transpose != 0,
                Color::Yellow,
            ),
        ),
        indented(velocity_label(controls.velocity as int)),
        indented(pedal_label(controls.pedal_down)),
        indented(waveform_label(controls.waveform)),
        indented(reverb_label(fraction::tenths(controls.reverb as int))),
    ]
}

/// The lines on the effects that can be switched on and off.
pub open spec fn effects_model(controls: Controls) -> Seq<Seq<SpanModel>> {
    seq![
        indented_span(
            tinted(
                delay_label(
                    controls.delay_on,
                    fraction::tenths(controls.delay_feedback as int),
                ),
                controls.delay_on,
                Color::Yellow,
            ),
        ),
        indented_span(
            tinted(
                tremolo_label(controls.tremolo_on, controls.tremolo_rate as int),
                controls.tremolo_on,
                Color::Blue,
            ),
        ),
        indented_span(
            tinted(
                vibrato_label(controls.vibrato_on, controls.vibrato_rate as int),
                controls.vibrato_on,
                Color::Magenta,
            ),
        ),
    ]
}

/// The lower part of the screen: the scale, the arpeggiator, the tape and the help.
pub open spec fn status_model(
    controls: Controls,
    arp: ArpModel,
    tape: TapeModel,
    transport: Transport,
) -> Seq<Seq<SpanModel>> {
    seq![
        indented(scale_label(controls.scale, controls.root_idx as int)),
        indented_span(tinted(arp_label(arp.on, arp.bpm, arp.pattern), arp.on, Color::Cyan)),
        indented_span(tape_model(transport, tape.recording, tape.recorded.len())),
        seq![plain(""@)],
        seq![
            plain("  SPACE=pedal  Z/X=octave  PgUp/PgDn=transpose  1-9=vel  [=wave  -/==reverb"@),
        ],
        seq![
            plain("  E=delay  V=tremolo  C=vibrato  Tab=arp  R=record  P=play  Y=loop  Q=quit"@),
        ],
    ]
}

/// The whole screen.
pub open spec fn screen_model(
    controls: Controls,
    arp: ArpModel,
    tape: TapeModel,
    transport: Transport,
    pressed: Seq<char>,
) -> Seq<Seq<SpanModel>> {
    keyboard_model(controls, pressed) + settings_model(controls) + effects_model(controls)
        + status_model(controls, arp, tape, transport)
}

/// Adds a line with one part.
fn add_span(lines: &mut Vec<Vec<Span>>, span: Span)
    ensures
        screen_view(final(lines)@) == screen_view(old(lines)@).push(seq![span@]),
{
    let mut line: Vec<Span> = Vec::new();
    line.push(span);
    assert(line_view(line@) =~= seq![span@]);
    add_line(lines, line);
}

/// Adds a line.
fn add_line(lines: &mut Vec<Vec<Span>>, line: Vec<Span>)
    ensures
        screen_view(final(lines)@) == screen_view(old(lines)@).push(line_view(line@)),
{
    lines.push(line);
    assert(screen_view(lines@) =~= screen_view(old(lines)@).push(line_view(line@)));
}

/// Adds a line of plain text.
fn add_text(lines: &mut Vec<Vec<Span>>, words: &str)
    ensures
        screen_view(final(lines)@) == screen_view(old(lines)@).push(seq![plain(words@)]),
{
    add_span(lines, plain_span(words.to_string()));
}

/// Adds a line of plain text, indented.
fn add_indented(lines: &mut Vec<Vec<Span>>, words: String)
    ensures
        screen_view(final(lines)@) == screen_view(old(lines)@).push(indented(words@)),
{
    let mut line = "  ".to_string();
    line.append(words.as_str());
    add_span(lines, plain_span(line));
}

/// Adds a line with one part of its own colour, indented.
fn add_indented_span(lines: &mut Vec<Vec<Span>>, span: Span)
    ensures
        screen_view(final(lines)@) == screen_view(old(lines)@).push(indented_span(span@)),
{
    let mut line: Vec<Span> = Vec::new();
    line.push(plain_span("  ".to_string()));
    line.push(span);
    assert(line_view(line@) =~= indented_span(span@));
    add_line(lines, line);
}

/// Draws a row of keys.
fn key_row(
    title: &str,
    slots: &[Option<char>],
    controls: &Controls,
    pressed: &Vec<char>,
    classes: &Vec<u8>,
) -> (line: Vec<Span>)
    requires
        classes@.map_values(|pc: u8| pc as int) == scale::scale_classes(
            controls.scale,
            controls.root_idx as int,
            controls.transpose as int,
        ),
    ensures
        line_view(line@) == row_model(title@, slots@, *controls, pressed@),
{
    let mut line: Vec<Span> = Vec::new();
    line.push(plain_span(title.to_string()));
    assert(line_view(line@) =~= seq![plain(title@)]);
    for i in 0..slots.len()
        invariant
            classes@.map_values(|pc: u8| pc as int) == scale::scale_classes(
                controls.scale,
                controls.root_idx as int,
                controls.transpose as int,
            ),
            line_view(line@) == row_model(title@, slots@.take(i as int), *controls, pressed@),
    {
        let ghost before = line@;
        let slot = slots[i];
        match slot {
            Some(key) => {
                proof {
                    lemma_listed_is_highlighted(key, *controls, classes@);
                }
                line.push(write_key(key, pressed, classes));
                line.push(plain_span("  ".to_string()));
            },
            None => {
                line.push(plain_span("   ".to_string()));
            },
        }
        proof {
            assert(slots@.take(i + 1).drop_last() =~= slots@.take(i as int));
            assert(line_view(line@) =~= line_view(before) + slot_model(slot, *controls, pressed@));
        }
    }
    assert(slots@.take(slots@.len() as int) =~= slots@);
    line
}

/// The keys whose pitch classes are listed for the scale are the highlighted ones.
proof fn lemma_listed_is_highlighted(key: char, controls: Controls, classes: Seq<u8>)
    requires
        classes.map_values(|pc: u8| pc as int) == scale::scale_classes(
            controls.scale,
            controls.root_idx as int,
            controls.transpose as int,
        ),
    ensures
        is_listed(key, classes) == scale::is_highlighted(
            key,
            controls.scale,
            controls.root_idx as int,
            controls.transpose as int,
        ),
{
    let numbers = classes.map_values(|pc: u8| pc as int);
    if let Some(pc) = keyboard::pitch_class(key) {
        scale::law_highlights_are_what_is_heard(
            key,
            controls.scale,
            controls.root_idx as int,
            controls.transpose as int,
        );
        if classes.contains(pc) {
            let i = choose|i: int| 0 <= i < classes.len() && classes[i] == pc;
            assert(numbers[i] == pc as int);
        }
        if numbers.contains(pc as int) {
            let i = choose|i: int| 0 <= i < numbers.len() && numbers[i] == pc as int;
            assert(classes[i] == pc);
        }
    }
}

/// Draws the line on the chord.
fn write_chord(name: String) -> (line: Vec<Span>)
    ensures
        line_view(line@) == chord_model(name@),
{
    let mut line: Vec<Span> = Vec::new();
    if name.as_str().unicode_len() == 0 {
        line.push(plain_span("  Chord:   —".to_string()));
    } else {
        line.push(plain_span("  Chord:   ".to_string()));
        line.push(tinted_span(padded(name.as_str(), 16), true, Color::Cyan));
    }
    assert(line_view(line@) =~= chord_model(name@));
    line
}

/// Draws the title, the keyboard and the chord.
fn add_keyboard(lines: &mut Vec<Vec<Span>>, controls: &Controls, pressed: &Vec<char>)
    requires
        controls.root_idx < ROOT_COUNT,
        chord::transposable(pressed@, controls.transpose),
    ensures
        screen_view(final(lines)@) == screen_view(old(lines)@) + keyboard_model(
            *controls,
            pressed@,
        ),
{
    let classes = scale_notes(controls.scale, controls.root_idx, controls.transpose);
    add_text(lines, "");
    add_text(lines, "  Terminal Piano");
    add_text(lines, "");
    let white: [Option<char>; 10] = [
        Some('a'), Some('s'), Some('d'), Some('f'), Some('g'),
        Some('h'), Some('j'), Some('k'), Some('l'), Some(';'),
    ];
    assert(white@ =~= white_keys());
    add_line(lines, key_row("  White:  ", &white, controls, pressed, &classes));
    let black: [Option<char>; 10] = [
        Some('w'), None, Some('r'), None, Some('t'),
        Some('u'), Some('i'), None, Some('o'), None,
    ];
    assert(black@ =~= black_keys());
    add_line(lines, key_row("  Black:  ", &black, controls, pressed, &classes));
    add_text(lines, "");
    add_line(lines, write_chord(detect_chord(pressed, controls.transpose)));
    add_text(lines, "");
    assert(screen_view(lines@) =~= screen_view(old(lines)@) + keyboard_model(*controls, pressed@));
}

/// Draws the lines on how the keys sound.
fn add_settings(lines: &mut Vec<Vec<Span>>, controls: &Controls)
    requires
        controls.reverb < ONE,
    ensures
        screen_view(final(lines)@) == screen_view(old(lines)@) + settings_model(*controls),
{
    add_indented(lines, write_octave(controls.octave));
    add_indented_span(
        lines,
        tinted_span(
            write_transpose(controls.transpose),
            controls.transpose != 0,
            Color::Yellow,
        ),
    );
    add_indented(lines, write_velocity(controls.velocity));
    add_indented(lines, write_pedal(controls.pedal_down));
    add_indented(lines, join("Waveform: ", controls.waveform.name(), "  ([ to cycle)"));
    add_indented(
        lines,
        join("Reverb:   ", bar(count_tenths(controls.reverb), 8).as_str(), "  (- / = to adjust)"),
    );
    assert(screen_view(lines@) =~= screen_view(old(lines)@) + settings_model(*controls));
}

/// Draws the lines on the effects.
fn add_effects(lines: &mut Vec<Vec<Span>>, controls: &Controls)
    requires
        controls.delay_feedback < ONE,
    ensures
        screen_view(final(lines)@) == screen_view(old(lines)@) + effects_model(*controls),
{
    add_indented_span(
        lines,
        tinted_span(
            write_delay(controls.delay_on, count_tenths(controls.delay_feedback)),
            controls.delay_on,
            Color::Yellow,
        ),
    );
    add_indented_span(
        lines,
        tinted_span(
            write_tremolo(controls.tremolo_on, controls.tremolo_rate),
            controls.tremolo_on,
            Color::Blue,
        ),
    );
    add_indented_span(
        lines,
        tinted_span(
            write_vibrato(controls.vibrato_on, controls.vibrato_rate),
            controls.vibrato_on,
            Color::Magenta,
        ),
    );
    assert(screen_view(lines@) =~= screen_view(old(lines)@) + effects_model(*controls));
}

/// Draws the scale, the arpeggiator, the tape and the help.
fn add_status(lines: &mut Vec<Vec<Span>>, session: &Session, transport: Transport)
    requires
        session.controls.root_idx < ROOT_COUNT,
    ensures
        screen_view(final(lines)@) == screen_view(old(lines)@) + status_model(
            session.controls,
            session.arp@,
            session.tape@,
            transport,
        ),
{
    add_indented(lines, write_scale(session.controls.scale, session.controls.root_idx));
    add_indented_span(
        lines,
        tinted_span(
            write_arp(session.arp.on, session.arp.bpm, session.arp.pattern),
            session.arp.on,
            Color::Cyan,
        ),
    );
    add_indented_span(
        lines,
        write_tape(transport, session.tape.recording, session.tape.recorded.len()),
    );
    add_text(lines, "");
    add_text(
        lines,
        "  SPACE=pedal  Z/X=octave  PgUp/PgDn=transpose  1-9=vel  [=wave  -/==reverb",
    );
    add_text(
        lines,
        "  E=delay  V=tremolo  C=vibrato  Tab=arp  R=record  P=play  Y=loop  Q=quit",
    );
    assert(screen_view(lines@) =~= screen_view(old(lines)@) + status_model(
        session.controls,
        session.arp@,
        session.tape@,
        transport,
    ));
}

/// Draws the whole screen, given the keys that are pressed. The root has to be one of the twelve,
/// reverb and feedback have to be fractions, and the transposition must not lead out of the range
/// of numbers.
pub fn ui_lines(session: &Session, transport: Transport, pressed: &Vec<char>) -> (lines: Vec<
    Vec<Span>,
>)
    requires
        session.controls.root_idx < ROOT_COUNT,
        session.controls.reverb < ONE,
        session.controls.delay_feedback < ONE,
        chord::transposable(pressed@, session.controls.transpose),
    ensures
        screen_view(lines@) == screen_model(
            session.controls,
            session.arp@,
            session.tape@,
            transport,
            pressed@,
        ),
{
    let mut lines: Vec<Vec<Span>> = Vec::new();
    assert(screen_view(lines@) + keyboard_model(session.controls, pressed@) =~= keyboard_model(
        session.controls,
        pressed@,
    ));
    add_keyboard(&mut lines, &session.controls, pressed);
    add_settings(&mut lines, &session.controls);
    add_effects(&mut lines, &session.controls);
    add_status(&mut lines, session, transport);
    lines
}

/// Draws the whole screen of an instrument.
pub fn redraw(session: &Session, notes: &ActiveNotes, transport: Transport) -> (lines: Vec<
    Vec<Span>,
>)
    requires
        session.controls.wf(),
        notes.wf(),
    ensures
        exists|pressed: Seq<char>|
            pressed.to_set() == active_notes::pressed(notes@) && screen_view(lines@)
                == #[trigger] screen_model(
                session.controls,
                session.arp@,
                session.tape@,
                transport,
                pressed,
            ),
        forall|pressed: Seq<char>|
            pressed.to_set() == active_notes::pressed(notes@) ==> screen_view(lines@)
                == #[trigger] screen_model(
                session.controls,
                session.arp@,
                session.tape@,
                transport,
                pressed,
            ),
{
    let keys = notes.collect_pressed();
    proof {
        assert forall|pressed: Seq<char>| pressed.to_set() == active_notes::pressed(notes@) implies
            screen_model(
            session.controls,
            session.arp@,
            session.tape@,
            transport,
            keys@,
        ) == #[trigger] screen_model(
            session.controls,
            session.arp@,
            session.tape@,
            transport,
            pressed,
        ) by {
            law_screen_depends_on_the_set_of_keys(
                session.controls,
                session.arp@,
                session.tape@,
                transport,
                keys@,
                pressed,
            );
        }
    }
    ui_lines(session, transport, &keys)
}

proof fn lemma_row_depends_on_the_set_of_keys(
    title: Seq<char>,
    slots: Seq<Option<char>>,
    controls: Controls,
    one: Seq<char>,
    other: Seq<char>,
)
    requires
        one.to_set() == other.to_set(),
    ensures
        row_model(title, slots, controls, one) == row_model(title, slots, controls, other),
    decreases slots.len(),
{
    if slots.len() > 0 {
        lemma_row_depends_on_the_set_of_keys(title, slots.drop_last(), controls, one, other);
        if let Some(key) = slots.last() {
            assert(one.contains(key) == one.to_set().contains(key));
            assert(other.contains(key) == other.to_set().contains(key));
        }
        assert(slot_model(slots.last(), controls, one) == slot_model(
            slots.last(),
            controls,
            other,
        ));
    }
}

/// The screen does not depend on the order in which pressed keys are listed.
pub proof fn law_screen_depends_on_the_set_of_keys(
    controls: Controls,
    arp: ArpModel,
    tape: TapeModel,
    transport: Transport,
    one: Seq<char>,
    other: Seq<char>,
)
    requires
        one.to_set() == other.to_set(),
    ensures
        screen_model(controls, arp, tape, transport, one) == screen_model(
            controls,
            arp,
            tape,
            transport,
            other,
        ),
{
    lemma_row_depends_on_the_set_of_keys("  White:  "@, white_keys(), controls, one, other);
    lemma_row_depends_on_the_set_of_keys("  Black:  "@, black_keys(), controls, one, other);
    chord::law_only_the_set_of_keys_matters(one, other, controls.transpose as int);
}

/// Every piano key is drawn once, as a white or as a black key, and nothing else is.
pub proof fn law_keyboard_shows_every_key(key: char)
    ensures
        keyboard::is_piano_key(key) <==> white_keys().contains(Some(key)) || black_keys().contains(
            Some(key),
        ),
        !(white_keys().contains(Some(key)) && black_keys().contains(Some(key))),
{
    let white = white_keys();
    let black = black_keys();
    assert(white[0] == Some('a') && white[1] == Some('s') && white[2] == Some('d') && white[3]
        == Some('f') && white[4] == Some('g') && white[5] == Some('h') && white[6] == Some('j')
        && white[7] == Some('k') && white[8] == Some('l') && white[9] == Some(';'));
    assert(black[0] == Some('w') && black[2] == Some('r') && black[4] == Some('t') && black[5]
        == Some('u') && black[6] == Some('i') && black[8] == Some('o'));
}

/// A white key plays a natural and a black key a sharp.
pub proof fn law_black_keys_are_sharps(key: char)
    requires
        keyboard::is_piano_key(key),
    ensures
        black_keys().contains(Some(key)) <==> ({
            let pc = keyboard::pitch_class(key)->0;
            pc == 1 || pc == 3 || pc == 6 || pc == 8 || pc == 10
        }),
{
    law_keyboard_shows_every_key(key);
    let black = black_keys();
    assert(black[0] == Some('w') && black[2] == Some('r') && black[4] == Some('t') && black[5]
        == Some('u') && black[6] == Some('i') && black[8] == Some('o'));
}

/// What is green is what is heard: a key that is not pressed stands on green exactly when the pitch
/// that it sounds under the transposition belongs to the scale.
pub proof fn law_green_keys_sound_the_scale(key: char, controls: Controls, pressed: Seq<char>)
    requires
        keyboard::is_piano_key(key),
        !pressed.contains(key),
    ensures
        slot_model(Some(key), controls, pressed)[0].background == Some(Color::DarkGreen)
            <==> scale::scale_classes(controls.scale, controls.root_idx as int, 0).contains(
            chord::transposed(keyboard::pitch_class(key)->0 as int, controls.transpose as int),
        ),
{
}

/// A pressed key is always shown as pressed, whether or not it belongs to the scale.
pub proof fn law_pressed_keys_stand_out(key: char, in_scale: bool)
    ensures
        key_model(key, true, in_scale).background == Some(Color::Yellow),
        key_model(key, false, in_scale).background != Some(Color::Yellow),
{
}

/// Plain text has no colour; tinted text has the given one in front if it is on, and none behind.
pub proof fn law_text_colours(text: Seq<char>, color: Color)
    ensures
        plain(text) == (SpanModel { text, foreground: None, background: None }),
        tinted(text, false, color) == (SpanModel { text, foreground: None, background: None }),
        tinted(text, true, color) == (SpanModel {
            text,
            foreground: Some(color),
            background: None,
        }),
{
}

/// The screen is made of its parts, one below the other.
proof fn lemma_screen_parts(
    controls: Controls,
    arp: ArpModel,
    tape: TapeModel,
    transport: Transport,
    pressed: Seq<char>,
)
    ensures
        ({
            let screen = screen_model(controls, arp, tape, transport, pressed);
            &&& screen.len() == 23
            &&& forall|i: int| 0 <= i < 8 ==> #[trigger] screen[i] == keyboard_model(
                controls,
                pressed,
            )[i]
            &&& forall|i: int| 8 <= i < 14 ==> #[trigger] screen[i] == settings_model(controls)[i
                - 8]
            &&& forall|i: int| 14 <= i < 17 ==> #[trigger] screen[i] == effects_model(controls)[i
                - 14]
            &&& forall|i: int| 17 <= i < 23 ==> #[trigger] screen[i] == status_model(
                controls,
                arp,
                tape,
                transport,
            )[i - 17]
        }),
{
}

/// The upper part of the screen: the title, the two rows of keys from left to right, with a blank
/// where two white keys have no black one between them, and the chord.
pub proof fn law_screen_shows_the_keyboard(
    controls: Controls,
    arp: ArpModel,
    tape: TapeModel,
    transport: Transport,
    pressed: Seq<char>,
)
    ensures
        ({
            let screen = screen_model(controls, arp, tape, transport, pressed);
            &&& screen.len() == 23
            &&& screen[0] == seq![plain(""@)]
            &&& screen[1] == seq![plain("  Terminal Piano"@)]
            &&& screen[2] == seq![plain(""@)]
            &&& screen[3] == row_model(
                "  White:  "@,
                seq![
                    Some('a'), Some('s'), Some('d'), Some('f'), Some('g'),
                    Some('h'), Some('j'), Some('k'), Some('l'), Some(';'),
                ],
                controls,
                pressed,
            )
            &&& screen[4] == row_model(
                "  Black:  "@,
                seq![
                    Some('w'), None, Some('r'), None, Some('t'),
                    Some('u'), Some('i'), None, Some('o'), None,
                ],
                controls,
                pressed,
            )
            &&& screen[5] == seq![plain(""@)]
            &&& screen[7] == seq![plain(""@)]
        }),
{
    lemma_screen_parts(controls, arp, tape, transport, pressed);
}

/// A row of keys is its title and, for each place, either the key as a capital and two blanks, or
/// three blanks. A pressed key is black on yellow; another one is white on green if what it sounds
/// belongs to the scale, and plain if not.
pub proof fn law_rows_show_keys(
    title: Seq<char>,
    slots: Seq<Option<char>>,
    key: char,
    controls: Controls,
    pressed: Seq<char>,
)
    ensures
        ({
            let lit = scale::is_highlighted(
                key,
                controls.scale,
                controls.root_idx as int,
                controls.transpose as int,
            );
            let row = row_model(title, slots, controls, pressed);
            let span = SpanModel {
                text: seq![text::capital(key)],
                foreground: if pressed.contains(key) {
                    Some(Color::Black)
                } else if lit {
                    Some(Color::White)
                } else {
                    None
                },
                background: if pressed.contains(key) {
                    Some(Color::Yellow)
                } else if lit {
                    Some(Color::DarkGreen)
                } else {
                    None
                },
            };
            &&& row_model(title, seq![], controls, pressed) == seq![plain(title)]
            &&& row_model(title, slots.push(Some(key)), controls, pressed) == row.push(span).push(
                plain("  "@),
            )
            &&& row_model(title, slots.push(None), controls, pressed) == row.push(plain("   "@))
        }),
{
    let row = row_model(title, slots, controls, pressed);
    assert(slots.push(Some(key)).drop_last() =~= slots);
    assert(slots.push(None).drop_last() =~= slots);
    let longer = row_model(title, slots.push(Some(key)), controls, pressed);
    assert(longer =~= row.push(slot_model(Some(key), controls, pressed)[0]).push(plain("  "@)));
    assert(row_model(title, slots.push(None), controls, pressed) =~= row.push(plain("   "@)));
}

/// The chord line shows a dash in silence, and otherwise the name of what is heard, which is what
/// the pressed keys sound under the transposition, in cyan.
pub proof fn law_screen_names_what_is_heard(
    controls: Controls,
    arp: ArpModel,
    tape: TapeModel,
    transport: Transport,
    pressed: Seq<char>,
)
    ensures
        ({
            let line = screen_model(controls, arp, tape, transport, pressed)[6];
            let name = chord::chord_name(chord::sounding(pressed, controls.transpose as int));
            &&& name.len() == 0 ==> line == seq![plain("  Chord:   —"@)]
            &&& name.len() > 0 ==> {
                &&& line.len() == 2
                &&& line[0] == plain("  Chord:   "@)
                &&& line[1].text == text::padded_text(name, 16)
                &&& line[1].foreground == Some(Color::Cyan)
                &&& line[1].background is None
            }
        }),
{
    lemma_screen_parts(controls, arp, tape, transport, pressed);
}

/// Transposing moves the chord that the screen names: where the pressed keys stack a chord with a
/// single root on a pitch class, the line starts with the name of the transposed pitch class and
/// that kind of chord, and there is nothing but blanks behind it.
pub proof fn law_screen_names_the_transposed_chord(
    controls: Controls,
    arp: ArpModel,
    tape: TapeModel,
    transport: Transport,
    pressed: Seq<char>,
    root: int,
)
    requires
        0 <= root < 12,
        chord::has_single_root(
            chord::ascending(chord::intervals_above(chord::sounding(pressed, 0), root), 12),
        ),
    ensures
        ({
            let line = screen_model(controls, arp, tape, transport, pressed)[6];
            let name = keyboard::class_name((root + controls.transpose) % 12) + " "@
                + chord::shape_over(chord::sounding(pressed, 0), root)->0;
            &&& line.len() == 2
            &&& line[1].text.take(name.len() as int) == name
            &&& forall|i: int| name.len() <= i < line[1].text.len() ==> line[1].text[i] == ' '
        }),
{
    let name = keyboard::class_name((root + controls.transpose) % 12) + " "@ + chord::shape_over(
        chord::sounding(pressed, 0),
        root,
    )->0;
    chord::law_transposing_moves_the_chord(pressed, root, controls.transpose as int);
    law_screen_names_what_is_heard(controls, arp, tape, transport, pressed);
    reveal_strlit(" ");
    assert(name.len() > 0);
    text::law_padding_adds_blanks(name, 16, 0);
}

/// The lines on octave, transposition, velocity, pedal, waveform and reverb, each with its setting
/// and no other; the transposition is yellow while there is one.
#[verifier::spinoff_prover]
#[verifier::rlimit(40)]
pub proof fn law_screen_shows_the_settings(
    controls: Controls,
    arp: ArpModel,
    tape: TapeModel,
    transport: Transport,
    pressed: Seq<char>,
)
    ensures
        ({
            let screen = screen_model(controls, arp, tape, transport, pressed);
            let octave = text::signed_text(controls.octave as int);
            let transpose = text::signed_text(controls.transpose as int);
            &&& controls.octave == 0 ==> screen[8] == seq![plain("  "@ + "Octave:  0  (default)"@)]
            &&& controls.octave > 0 ==> screen[8] == seq![
                plain("  "@ + ("Octave: +"@ + octave + "  (Z/X to shift)"@)),
            ]
            &&& controls.octave < 0 ==> screen[8] == seq![
                plain("  "@ + ("Octave: "@ + octave + "  (Z/X to shift)"@)),
            ]
            &&& controls.transpose == 0 ==> screen[9] == seq![
                plain("  "@),
                plain("Transpose:  0 semitones  (PgUp/PgDn)"@),
            ]
            &&& controls.transpose > 0 ==> screen[9] == seq![
                plain("  "@),
                tinted(
                    "Transpose: +"@ + transpose + " semitones  (PgUp/PgDn)"@,
                    true,
                    Color::Yellow,
                ),
            ]
            &&& controls.transpose < 0 ==> screen[9] == seq![
                plain("  "@),
                tinted(
                    "Transpose: "@ + transpose + " semitones  (PgUp/PgDn)"@,
                    true,
                    Color::Yellow,
                ),
            ]
            &&& screen[10] == seq![
                plain(
                    "  "@ + ("Velocity: "@ + text::bar_text(controls.velocity as int, 9) + "  ("@
                        + text::decimal_text(controls.velocity as nat) + "/9 — keys 1-9)"@),
                ),
            ]
            &&& controls.pedal_down ==> screen[11] == seq![plain("  "@ + "Pedal: DOWN"@)]
            &&& !controls.pedal_down ==> screen[11] == seq![plain("  "@ + "Pedal: up  "@)]
            &&& screen[12] == seq![
                plain("  "@ + ("Waveform: "@ + controls.waveform.title() + "  ([ to cycle)"@)),
            ]
            &&& screen[13] == seq![
                plain(
                    "  "@ + ("Reverb:   "@ + text::bar_text(
                        fraction::tenths(controls.reverb as int),
                        8,
                    ) + "  (- / = to adjust)"@),
                ),
            ]
        }),
{
    lemma_screen_parts(controls, arp, tape, transport, pressed);
}

/// The lines on delay, tremolo and vibrato, each with its own switch, level and colour.
#[verifier::spinoff_prover]
#[verifier::rlimit(40)]
pub proof fn law_screen_shows_the_effects(
    controls: Controls,
    arp: ArpModel,
    tape: TapeModel,
    transport: Transport,
    pressed: Seq<char>,
)
    ensures
        ({
            let screen = screen_model(controls, arp, tape, transport, pressed);
            let feedback = text::bar_text(fraction::tenths(controls.delay_feedback as int), 7);
            let tremolo = text::halves_text(controls.tremolo_rate as int);
            let vibrato = text::halves_text(controls.vibrato_rate as int);
            &&& controls.delay_on ==> screen[14] == seq![
                plain("  "@),
                tinted(
                    "Delay:    ON   fb: "@ + feedback + "  (E=off, ◄►=feedback)"@,
                    true,
                    Color::Yellow,
                ),
            ]
            &&& !controls.delay_on ==> screen[14] == seq![
                plain("  "@),
                plain("Delay:    off  fb: "@ + feedback + "  (E to enable, ◄►=feedback)"@),
            ]
            &&& controls.tremolo_on ==> screen[15] == seq![
                plain("  "@),
                tinted(
                    "Tremolo:  ON   "@ + tremolo + " Hz  (V=off, B/N=rate)"@,
                    true,
                    Color::Blue,
                ),
            ]
            &&& !controls.tremolo_on ==> screen[15] == seq![
                plain("  "@),
                plain("Tremolo:  off  "@ + tremolo + " Hz  (V to enable, B/N=rate)"@),
            ]
            &&& controls.vibrato_on ==> screen[16] == seq![
                plain("  "@),
                tinted(
                    "Vibrato:  ON   "@ + vibrato + " Hz  (C=off, M/,=rate)"@,
                    true,
                    Color::Magenta,
                ),
            ]
            &&& !controls.vibrato_on ==> screen[16] == seq![
                plain("  "@),
                plain("Vibrato:  off  "@ + vibrato + " Hz  (C to enable, M/,=rate)"@),
            ]
        }),
{
    lemma_screen_parts(controls, arp, tape, transport, pressed);
}

/// The lines on the scale with its root, the arpeggiator with its tempo and pattern, and the tape
/// with its number of events, and the help below them. A loop is green on dark green, a recording
/// red, and what is played once green.
#[verifier::spinoff_prover]
#[verifier::rlimit(40)]
pub proof fn law_screen_shows_the_status(
    controls: Controls,
    arp: ArpModel,
    tape: TapeModel,
    transport: Transport,
    pressed: Seq<char>,
)
    ensures
        ({
            let screen = screen_model(controls, arp, tape, transport, pressed);
            let events = text::decimal_text(tape.recorded.len());
            &&& screen[17] == seq![
                plain(
                    "  "@ + ("Scale:    "@ + keyboard::class_name(controls.root_idx as int) + " "@
                        + controls.scale.title() + "  (] = scale, \\ = root)"@),
                ),
            ]
            &&& !arp.on ==> screen[18] == seq![
                plain("  "@),
                plain("Arp:      off  (Tab to enable)"@),
            ]
            &&& arp.on ==> screen[18] == seq![
                plain("  "@),
                tinted(
                    "Arp:      ON   "@ + text::decimal_text(arp.bpm as nat) + " BPM  "@
                        + arp.pattern.title() + "  (Tab=off, ↑↓=BPM, `=pattern)"@,
                    true,
                    Color::Cyan,
                ),
            ]
            &&& screen[19].len() == 2
            &&& screen[19][0] == plain("  "@)
            &&& transport.looping ==> screen[19][1] == (SpanModel {
                text: "Tape: LOOPING  ("@ + events + " events)  — Y to stop"@,
                foreground: Some(Color::Green),
                background: Some(Color::DarkGreen),
            })
            &&& !transport.looping ==> {
                &&& screen[19][1].background is None
                &&& transport.playing ==> screen[19][1].text
                    == "Tape: playing once...  — P to stop"@
                &&& !transport.playing && tape.recording ==> screen[19][1].text
                    == "Tape: RECORDING  ("@ + events + " events)  — R to stop"@
                &&& !transport.playing && !tape.recording ==> screen[19][1].text == "Tape: "@
                    + events + " events stored  — R=record  P=play once  Y=loop"@
                &&& tape.recording ==> screen[19][1].foreground == Some(Color::Red)
                &&& !tape.recording && transport.playing ==> screen[19][1].foreground == Some(
                    Color::Green,
                )
                &&& !tape.recording && !transport.playing ==> screen[19][1].foreground is None
            }
            &&& screen[20] == seq![plain(""@)]
            &&& screen[21] == seq![
                plain(
                    "  SPACE=pedal  Z/X=octave  PgUp/PgDn=transpose  1-9=vel  [=wave  -/==reverb"@,
                ),
            ]
            &&& screen[22] == seq![
                plain(
                    "  E=delay  V=tremolo  C=vibrato  Tab=arp  R=record  P=play  Y=loop  Q=quit"@,
                ),
            ]
        }),
{
    lemma_screen_parts(controls, arp, tape, transport, pressed);
}

/// A key is drawn as one character, its capital: black on yellow if it is pressed, else white on
/// dark green if it belongs to the scale, else in no colour. It belongs to what is listed exactly
/// when the pitch class that it plays is on the list.
pub proof fn law_keys_are_drawn_by_their_state(key: char, pressed: bool, in_scale: bool, list: Seq<u8>)
    ensures
        key_model(key, pressed, in_scale).text == seq![text::capital(key)],
        pressed ==> key_model(key, pressed, in_scale).foreground == Some(Color::Black)
            && key_model(key, pressed, in_scale).background == Some(Color::Yellow),
        !pressed && in_scale ==> key_model(key, pressed, in_scale).foreground == Some(Color::White)
            && key_model(key, pressed, in_scale).background == Some(Color::DarkGreen),
        !pressed && !in_scale ==> key_model(key, pressed, in_scale).foreground is None
            && key_model(key, pressed, in_scale).background is None,
        is_listed(key, list) <==> (exists|i: int|
            0 <= i < list.len() && keyboard::pitch_class(key) == Some(#[trigger] list[i])),
{
    if let Some(pc) = keyboard::pitch_class(key) {
        if list.contains(pc) {
            let i = choose|i: int| 0 <= i < list.len() && list[i] == pc;
            assert(keyboard::pitch_class(key) == Some(list[i]));
        }
    }
}

} // verus!
