# quiz_buzzer

The game logic of a quiz buzzer system, verified with Verus. A devboard with six
buttons posts batches of button events to a game server; the server runs one of
three games on them and answers with the button LEDs to light.

- `src/game/`: the quiz game (first to buzz answers), the reaction time game
  (presses after a random delay are ranked by reaction time, earlier ones lose)
  and the sound check (every pressed button lights up and plays its sound).
- `src/devboard_controller.rs`: the messages between devboard and server.
- `src/audio.rs`: the sound effects the games ask for.
- `src/devboard/`: the devboard's side: collecting presses into a message,
  framing it as an HTTP request, and taking the body out of the answer.
- `src/app_config.rs`: where the server's configuration comes from.
- `app/`: the web server around the library (HTTP routes, WebSocket push to the
  frontend, audio playback, configuration file).
