# terminal_piano

A piano that is played in the terminal. `src/` is the instrument itself, written in Verus: every
function there is proved to do what its contract says. `app/` is the program around it: it reads
the keyboard, draws the screen, keeps the time and computes the samples.

| module         | what it is about                                                      |
|----------------|-----------------------------------------------------------------------|
| `keyboard`     | the sixteen piano keys, their pitches and names                       |
| `chord`        | naming the chord that the pressed keys form                           |
| `scale`        | scales and the keys that belong to them                               |
| `waveform`     | the timbres and their partials                                        |
| `note`         | a sounding note and its envelope                                      |
| `active_notes` | all sounding notes, one at most for each key                          |
| `arp`          | the patterns of the arpeggiator                                       |
| `arpeggiator`  | the arpeggiator with its held keys and its tempo                      |
| `tape`         | recording and playing back                                            |
| `delay`        | ring buffers for echo and reverberation                               |
| `command`      | what the keys of the computer keyboard mean                           |
| `fraction`     | fractions in single precision and steps of a tenth                    |
| `controls`     | knobs and switches                                                    |
| `session`      | the whole instrument as a state machine                               |
| `screen`       | what the screen shows                                                 |
| `text`         | numbers and bars as text                                              |

White keys are `A S D F G H J K L ;`, black keys `W R T U I O`; pressing `R`, though, starts and
stops the recorder. `Q` and `Esc` quit.
The names of functions that start with `law_` state what holds of the instrument as a whole.
